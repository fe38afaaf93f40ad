//! Object file paths in saved state: a file reference under the objects
//! directory is saved relative to it and resolved against it on load.
use vstd::prelude::*;

use crate::s3::{DataView, ObjectDataRef};
use crate::text::{chars_of, push_str, slice_chars, string_of};

verus! {

/// `path` with the directory `base` taken off its front: the rest after
/// `base/`, the empty path for `base` itself, `None` when `path` does not
/// lie under `base`.
pub open spec fn strip_base(path: Seq<char>, base: Seq<char>) -> Option<Seq<char>> {
    if path == base {
        Some(Seq::empty())
    } else if path.len() > base.len() && path.take(base.len() as int) == base && path[base.len() as int] == '/' {
        Some(path.skip(base.len() + 1int))
    } else {
        None
    }
}

/// A file reference relative to `base` where it lies under it; anything
/// else unchanged.
pub open spec fn relativize_spec(d: DataView, base: Seq<char>) -> DataView {
    match d {
        DataView::FileRef(p) => match strip_base(p, base) {
            Some(rel) => DataView::FileRef(rel),
            None => d,
        },
        _ => d,
    }
}

/// Whether a path is relative: it does not start with `/`.
pub open spec fn is_relative(p: Seq<char>) -> bool {
    p.len() == 0 || p[0] != '/'
}

/// A relative file reference joined onto `base`; an absolute one, or data
/// in memory, unchanged.
pub open spec fn resolve_spec(d: DataView, base: Seq<char>) -> DataView {
    match d {
        DataView::FileRef(p) => if is_relative(p) {
            DataView::FileRef(base + seq!['/'] + p)
        } else {
            d
        },
        _ => d,
    }
}

/// The reference `d` as saved: relative to the objects directory `base`.
pub fn relativize_data_ref(d: ObjectDataRef, base: &str) -> (r: ObjectDataRef)
    ensures
        r@ == relativize_spec(d@, base@),
{
    match d {
        ObjectDataRef::Inline(b) => ObjectDataRef::Inline(b),
        ObjectDataRef::FileRef(p) => {
            let pc = chars_of(p.as_str());
            let bc = chars_of(base);
            if pc.len() < bc.len() {
                proof {
                    assert(pc@ != bc@);
                }
                return ObjectDataRef::FileRef(p);
            }
            let mut i: usize = 0;
            let mut same = true;
            while i < bc.len() && same
                invariant
                    i <= bc@.len(),
                    bc@.len() <= pc@.len(),
                    same ==> pc@.take(i as int) == bc@.take(i as int),
                    !same ==> i < bc@.len() && pc@[i as int] != bc@[i as int],
                decreases bc@.len() - i + if same { 1int } else { 0int },
            {
                if pc[i] != bc[i] {
                    same = false;
                } else {
                    proof {
                        assert(pc@.take(i + 1) =~= pc@.take(i as int).push(pc@[i as int]));
                        assert(bc@.take(i + 1) =~= bc@.take(i as int).push(bc@[i as int]));
                    }
                    i = i + 1;
                }
            }
            if !same {
                proof {
                    assert(pc@.take(bc@.len() as int)[i as int] == pc@[i as int]);
                    assert(pc@.take(bc@.len() as int) != bc@);
                    assert(pc@ != bc@);
                }
                return ObjectDataRef::FileRef(p);
            }
            proof {
                assert(bc@.take(bc@.len() as int) =~= bc@);
            }
            if pc.len() == bc.len() {
                proof {
                    assert(pc@ =~= bc@);
                }
                ObjectDataRef::FileRef(String::new())
            } else if pc[bc.len()] == '/' {
                let rest = slice_chars(pc.as_slice(), bc.len() + 1, pc.len());
                proof {
                    assert(rest@ =~= pc@.skip(bc@.len() + 1int));
                }
                ObjectDataRef::FileRef(string_of(rest.as_slice()))
            } else {
                proof {
                    assert(pc@ != bc@);
                }
                ObjectDataRef::FileRef(p)
            }
        },
    }
}

/// The reference `d` as loaded: a relative path joined onto the objects
/// directory `base`.
pub fn resolve_data_ref(d: ObjectDataRef, base: &str) -> (r: ObjectDataRef)
    ensures
        r@ == resolve_spec(d@, base@),
{
    match d {
        ObjectDataRef::Inline(b) => ObjectDataRef::Inline(b),
        ObjectDataRef::FileRef(p) => {
            let pc = chars_of(p.as_str());
            if pc.len() == 0 || pc[0] != '/' {
                let mut out = String::new();
                push_str(&mut out, base);
                out.push('/');
                push_str(&mut out, p.as_str());
                proof {
                    assert(out@ =~= base@ + seq!['/'] + p@);
                }
                ObjectDataRef::FileRef(out)
            } else {
                ObjectDataRef::FileRef(p)
            }
        },
    }
}

/// Saving and loading a reference gives it back: a file under an absolute
/// objects directory comes back at its path (unless its path has a second
/// `/` right after the directory), a file elsewhere given by an absolute
/// path and data in memory are left as they are. The directory itself is
/// left out: it would come back with a `/` added.
pub proof fn law_relativize_then_resolve(d: DataView, base: Seq<char>)
    requires
        base.len() > 0 && base[0] == '/',
        d matches DataView::FileRef(p) ==> !is_relative(p),
        d matches DataView::FileRef(p) ==> p != base,
    ensures
        d matches DataView::FileRef(p) && strip_base(p, base) is Some && is_relative(strip_base(p, base)->Some_0) ==> resolve_spec(
            relativize_spec(d, base),
            base,
        ) == d,
        d matches DataView::FileRef(p) && strip_base(p, base) is None ==> resolve_spec(relativize_spec(d, base), base) == d,
        d is Inline ==> resolve_spec(relativize_spec(d, base), base) == d,
{
    match d {
        DataView::FileRef(p) => {
            match strip_base(p, base) {
                Some(rel) => {
                    if is_relative(rel) {
                        assert(p.len() > base.len());
                        assert(base + seq!['/'] + rel =~= p) by {
                            assert(p.take(base.len() as int) == base);
                            assert(p[base.len() as int] == '/');
                            assert(rel == p.skip(base.len() + 1int));
                        }
                    }
                },
                None => {},
            }
        },
        _ => {},
    }
}

} // verus!
