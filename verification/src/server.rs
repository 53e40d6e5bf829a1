//! Path sanitizing for the static-asset server: a request path is split
//! into components, separators and lone-dot components are normalized away,
//! and any path that starts with a dot component or contains a parent-dir
//! component is rejected.

use vstd::prelude::*;

verus! {

/// The byte of the component separator `/`.
pub const SLASH: u8 = 47;

/// The byte of `.`.
pub const DOT_BYTE: u8 = 46;

/// The lone-dot component.
pub open spec fn dot() -> Seq<u8> {
    seq![46u8]
}

/// The parent-dir component.
pub open spec fn dotdot() -> Seq<u8> {
    seq![46u8, 46u8]
}

/// The components of `s` from position `i` on, with `cur` the partial
/// component read so far: components are the maximal non-empty runs of
/// bytes between separators.
pub open spec fn segments_from(s: Seq<u8>, i: int, cur: Seq<u8>) -> Seq<Seq<u8>>
    decreases s.len() - i,
{
    if i < 0 || i >= s.len() {
        if cur.len() == 0 {
            Seq::empty()
        } else {
            seq![cur]
        }
    } else if s[i] == SLASH {
        (if cur.len() == 0 {
            Seq::empty()
        } else {
            seq![cur]
        }) + segments_from(s, i + 1, Seq::empty())
    } else {
        segments_from(s, i + 1, cur.push(s[i]))
    }
}

/// The components of a whole path.
pub open spec fn segments(s: Seq<u8>) -> Seq<Seq<u8>> {
    segments_from(s, 0, Seq::empty())
}

/// A path is rejected when some component is the parent dir, or when it
/// literally starts with a lone-dot component.
pub open spec fn path_rejected(s: Seq<u8>) -> bool {
    ||| exists|j: int| 0 <= j < segments(s).len() && segments(s)[j] == dotdot()
    ||| (s.len() > 0 && s[0] == DOT_BYTE && segments(s).len() > 0 && segments(s)[0] == dot())
}

/// The components that survive sanitizing: every component except lone
/// dots, in order.
pub open spec fn kept_segments(segs: Seq<Seq<u8>>) -> Seq<Seq<u8>>
    decreases segs.len(),
{
    if segs.len() == 0 {
        Seq::empty()
    } else {
        kept_segments(segs.drop_last()) + (if segs.last() == dot() {
            Seq::empty()
        } else {
            seq![segs.last()]
        })
    }
}

/// Failure of path sanitizing.
#[derive(Clone, Copy, PartialEq, Eq, Structural, Debug)]
pub enum PathError {
    /// The path holds a component that could escape the served directory.
    InvalidComponent,
}

/// `s` is the lone-dot component.
fn is_dot(s: &Vec<u8>) -> (r: bool)
    ensures
        r == (s@ == dot()),
{
    let r = s.len() == 1 && s[0] == DOT_BYTE;
    proof {
        if r {
            assert(s@ =~= dot());
        }
    }
    r
}

/// `s` is the parent-dir component.
fn is_dotdot(s: &Vec<u8>) -> (r: bool)
    ensures
        r == (s@ == dotdot()),
{
    let r = s.len() == 2 && s[0] == DOT_BYTE && s[1] == DOT_BYTE;
    proof {
        if r {
            assert(s@ =~= dotdot());
        }
    }
    r
}

/// A pushed vector of vectors views as the pushed sequence of views.
proof fn lemma_deep_view_push(v1: Vec<Vec<u8>>, v2: Vec<Vec<u8>>, x: Vec<u8>)
    requires
        v2@ == v1@.push(x),
    ensures
        v2.deep_view() =~~= v1.deep_view().push(x@),
{
    assert forall|j: int| 0 <= j < v2@.len() implies v2.deep_view()[j] =~= v1.deep_view().push(
        x@,
    )[j] by {
        if j < v1@.len() {
            assert(v2@[j] == v1@[j]);
        } else {
            assert(v2@[j] == x);
        }
    }
}

/// Sanitize a request path, as the asset server does before serving a file:
/// split it into components, drop separators and lone-dot components, and
/// reject it — exactly when `path_rejected` holds of it — if a component is
/// the parent dir or a lone-dot component stands at its literal start. The
/// surviving components come back in order.
pub fn sanitize_path(path: &[u8]) -> (r: Result<Vec<Vec<u8>>, PathError>)
    requires
        path@.len() < usize::MAX,
    ensures
        match r {
            Ok(segs) => !path_rejected(path@) && segs.deep_view() == kept_segments(
                segments(path@),
            ),
            Err(e) => path_rejected(path@) && e == PathError::InvalidComponent,
        },
{
    let leading_dot = path.len() > 0 && path[0] == DOT_BYTE;
    let mut out: Vec<Vec<u8>> = Vec::new();
    let mut cur: Vec<u8> = Vec::new();
    let mut nseg: usize = 0;
    let ghost mut done: Seq<Seq<u8>> = Seq::empty();
    let mut i: usize = 0;
    proof {
        assert(out.deep_view() =~~= kept_segments(done));
    }
    while i <= path.len()
        invariant
            i <= path@.len() + 1,
            path@.len() < usize::MAX,
            leading_dot == (path@.len() > 0 && path@[0] == DOT_BYTE),
            segments(path@) == done + segments_from(path@, i as int, cur@),
            out.deep_view() == kept_segments(done),
            nseg == done.len(),
            nseg <= i,
            forall|j: int| 0 <= j < done.len() ==> #[trigger] done[j] != dotdot(),
            !(leading_dot && done.len() > 0 && done[0] == dot()),
            i > path@.len() ==> cur@.len() == 0,
        decreases path@.len() + 1 - i,
    {
        let is_sep = i == path.len() || path[i] == SLASH;
        if is_sep {
            if cur.len() > 0 {
                let seg = cur;
                cur = Vec::new();
                proof {
                    assert(segments_from(path@, i as int, seg@) == seq![seg@] + segments_from(
                        path@,
                        i as int + 1,
                        cur@,
                    ) || (i == path@.len() && segments_from(path@, i as int, seg@) == seq![seg@]));
                    assert(segments(path@)[done.len() as int] == seg@);
                }
                if is_dotdot(&seg) {
                    return Err(PathError::InvalidComponent);
                }
                let seg_is_dot = is_dot(&seg);
                if nseg == 0 && leading_dot && seg_is_dot {
                    return Err(PathError::InvalidComponent);
                }
                let ghost old_out = out;
                let ghost old_done = done;
                if !seg_is_dot {
                    out.push(seg);
                    proof {
                        lemma_deep_view_push(old_out, out, seg);
                    }
                }
                proof {
                    done = done.push(seg@);
                    assert(done.drop_last() =~~= old_done);
                    assert(kept_segments(done) =~~= kept_segments(old_done) + (if seg@ == dot() {
                        Seq::<Seq<u8>>::empty()
                    } else {
                        seq![seg@]
                    }));
                    assert(out.deep_view() =~~= kept_segments(done));
                    assert(done + segments_from(path@, i as int + 1, cur@) =~~= old_done
                        + segments_from(path@, i as int, seg@));
                }
                nseg = nseg + 1;
            } else {
                proof {
                    assert(cur@ =~= Seq::<u8>::empty());
                    if i == path@.len() {
                        assert(segments_from(path@, i as int, cur@) =~~= Seq::<Seq<u8>>::empty());
                        assert(segments_from(path@, i as int + 1, cur@)
                            =~~= Seq::<Seq<u8>>::empty());
                    } else {
                        assert(path@[i as int] == SLASH);
                        assert(segments_from(path@, i as int, cur@) =~~= segments_from(
                            path@,
                            i as int + 1,
                            Seq::empty(),
                        ));
                    }
                    assert(done + segments_from(path@, i as int + 1, cur@) =~~= done
                        + segments_from(path@, i as int, cur@));
                }
            }
        } else {
            let b = path[i];
            let ghost old_cur = cur;
            cur.push(b);
            proof {
                assert(segments_from(path@, i as int, old_cur@) == segments_from(
                    path@,
                    i as int + 1,
                    cur@,
                ));
            }
        }
        i = i + 1;
    }
    proof {
        assert(segments_from(path@, i as int, cur@) =~~= Seq::<Seq<u8>>::empty());
        assert(done =~~= segments(path@));
    }
    Ok(out)
}

/// The index of the last `.` in `name` at a position in `1..=i`, or 0 when
/// there is none. A dot at index 0 marks a hidden file, not an extension.
pub open spec fn last_dot_index(name: Seq<u8>, i: int) -> int
    decreases i,
{
    if i <= 0 {
        0
    } else if name[i] == DOT_BYTE {
        i
    } else {
        last_dot_index(name, i - 1)
    }
}

/// The extension of a file name: the bytes after its last dot, unless the
/// name is empty, holds no dot, or only starts with one.
pub open spec fn extension_of(name: Seq<u8>) -> Option<Seq<u8>> {
    if name.len() == 0 {
        None
    } else {
        let d = last_dot_index(name, name.len() - 1);
        if d > 0 {
            Some(name.subrange(d + 1, name.len() as int))
        } else {
            None
        }
    }
}

/// The bytes of the extension `html`.
pub open spec fn ext_html() -> Seq<u8> {
    seq![104u8, 116u8, 109u8, 108u8]
}

/// The bytes of the extension `css`.
pub open spec fn ext_css() -> Seq<u8> {
    seq![99u8, 115u8, 115u8]
}

/// The bytes of the extension `js`.
pub open spec fn ext_js() -> Seq<u8> {
    seq![106u8, 115u8]
}

/// The bytes of the extension `wasm`.
pub open spec fn ext_wasm() -> Seq<u8> {
    seq![119u8, 97u8, 115u8, 109u8]
}

/// The bytes of the extension `png`.
pub open spec fn ext_png() -> Seq<u8> {
    seq![112u8, 110u8, 103u8]
}

/// The bytes of the extension `jpg`.
pub open spec fn ext_jpg() -> Seq<u8> {
    seq![106u8, 112u8, 103u8]
}

/// The bytes of the extension `jpeg`.
pub open spec fn ext_jpeg() -> Seq<u8> {
    seq![106u8, 112u8, 101u8, 103u8]
}

/// The bytes of the extension `gif`.
pub open spec fn ext_gif() -> Seq<u8> {
    seq![103u8, 105u8, 102u8]
}

/// The bytes of the extension `svg`.
pub open spec fn ext_svg() -> Seq<u8> {
    seq![115u8, 118u8, 103u8]
}

/// The bytes of the extension `json`.
pub open spec fn ext_json() -> Seq<u8> {
    seq![106u8, 115u8, 111u8, 110u8]
}

/// The content type served for a file with the given extension.
pub open spec fn content_type_spec(ext: Option<Seq<u8>>) -> Seq<char> {
    if ext == Some(ext_html()) {
        "text/html"@
    } else if ext == Some(ext_css()) {
        "text/css"@
    } else if ext == Some(ext_js()) {
        "application/javascript"@
    } else if ext == Some(ext_wasm()) {
        "application/wasm"@
    } else if ext == Some(ext_png()) {
        "image/png"@
    } else if ext == Some(ext_jpg()) || ext == Some(ext_jpeg()) {
        "image/jpg"@
    } else if ext == Some(ext_gif()) {
        "image/gif"@
    } else if ext == Some(ext_svg()) {
        "image/svg+xml"@
    } else if ext == Some(ext_json()) {
        "application/json"@
    } else {
        "application/octet-stream"@
    }
}

/// The position of the dot that starts the extension of `name`, or 0 when
/// `name` has no extension.
fn extension_index(name: &[u8]) -> (r: usize)
    requires
        name@.len() > 0,
    ensures
        r as int == last_dot_index(name@, name@.len() - 1),
        r < name@.len(),
{
    let mut i: usize = name.len() - 1;
    while i > 0
        invariant
            i < name@.len(),
            last_dot_index(name@, name@.len() - 1) == last_dot_index(name@, i as int),
        decreases i,
    {
        if name[i] == DOT_BYTE {
            return i;
        }
        i = i - 1;
    }
    0
}

/// The content type the asset server answers with for the given file name:
/// decided by the name's extension, falling back to a plain octet stream.
pub fn content_type_for(name: &[u8]) -> (r: &'static str)
    ensures
        r@ == content_type_spec(extension_of(name@)),
{
    if name.len() == 0 {
        return "application/octet-stream";
    }
    let d = extension_index(name);
    if d == 0 {
        return "application/octet-stream";
    }
    let e = vstd::slice::slice_subrange(name, d + 1, name.len());
    let ghost ext = extension_of(name@);
    proof {
        assert(ext == Some(e@));
    }
    if e.len() == 4 && e[0] == 104 && e[1] == 116 && e[2] == 109 && e[3] == 108 {
        proof {
            assert(e@ =~= ext_html());
        }
        "text/html"
    } else if e.len() == 3 && e[0] == 99 && e[1] == 115 && e[2] == 115 {
        proof {
            assert(e@ =~= ext_css());
        }
        "text/css"
    } else if e.len() == 2 && e[0] == 106 && e[1] == 115 {
        proof {
            assert(e@ =~= ext_js());
        }
        "application/javascript"
    } else if e.len() == 4 && e[0] == 119 && e[1] == 97 && e[2] == 115 && e[3] == 109 {
        proof {
            assert(e@ =~= ext_wasm());
        }
        "application/wasm"
    } else if e.len() == 3 && e[0] == 112 && e[1] == 110 && e[2] == 103 {
        proof {
            assert(e@ =~= ext_png());
        }
        "image/png"
    } else if e.len() == 3 && e[0] == 106 && e[1] == 112 && e[2] == 103 {
        proof {
            assert(e@ =~= ext_jpg());
        }
        "image/jpg"
    } else if e.len() == 4 && e[0] == 106 && e[1] == 112 && e[2] == 101 && e[3] == 103 {
        proof {
            assert(e@ =~= ext_jpeg());
        }
        "image/jpg"
    } else if e.len() == 3 && e[0] == 103 && e[1] == 105 && e[2] == 102 {
        proof {
            assert(e@ =~= ext_gif());
        }
        "image/gif"
    } else if e.len() == 3 && e[0] == 115 && e[1] == 118 && e[2] == 103 {
        proof {
            assert(e@ =~= ext_svg());
        }
        "image/svg+xml"
    } else if e.len() == 4 && e[0] == 106 && e[1] == 115 && e[2] == 111 && e[3] == 110 {
        proof {
            assert(e@ =~= ext_json());
        }
        "application/json"
    } else {
        proof {
            if ext == Some(ext_html()) {
                assert(e@ == ext_html());
            }
        }
        "application/octet-stream"
    }
}

} // verus!
