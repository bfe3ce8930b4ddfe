//! Paths as the operating system has them: bytes, with `/` between components.

use vstd::prelude::*;

use crate::output::append_bytes;

verus! {

/// The byte between the components of a path.
pub const SEPARATOR: u8 = 0x2f;

/// `component` below `base`: behind a separator, unless `base` is empty or ends
/// in one. An absolute `component` stands for itself.
pub open spec fn joined(base: Seq<u8>, component: Seq<u8>) -> Seq<u8> {
    if component.len() > 0 && component[0] == SEPARATOR {
        component
    } else if base.len() > 0 && base.last() != SEPARATOR {
        base + seq![SEPARATOR] + component
    } else {
        base + component
    }
}

/// A path below another.
pub fn join(base: &[u8], component: &[u8]) -> (r: Vec<u8>)
    ensures
        r@ == joined(base@, component@),
{
    let mut path: Vec<u8> = Vec::new();
    if component.len() > 0 && component[0] == SEPARATOR {
        append_bytes(&mut path, component);
        assert(path@ =~= component@);
        return path;
    }
    append_bytes(&mut path, base);
    assert(path@ =~= base@);
    if base.len() > 0 && base[base.len() - 1] != SEPARATOR {
        path.push(SEPARATOR);
        assert(path@ =~= base@ + seq![SEPARATOR]);
    }
    append_bytes(&mut path, component);
    path
}

/// A relative path below another ends in it, with one slash in front of it where there
/// was none. An absolute path stays as it is.
pub proof fn law_path_below_another(base: &[u8], component: &[u8], path: Vec<u8>)
    requires
        call_ensures(join, (base, component), path),
    ensures
        component@.len() > 0 && component@[0] == 0x2f ==> path@ == component@,
        !(component@.len() > 0 && component@[0] == 0x2f) ==> {
            &&& base@.len() == 0 ==> path@ == component@
            &&& base@.len() > 0 && base@.last() == 0x2f ==> path@ == base@ + component@
            &&& base@.len() > 0 && base@.last() != 0x2f ==> path@ == base@ + seq![0x2fu8]
                + component@
        },
{
    assert(Seq::<u8>::empty() + component@ =~= component@);
    if base@.len() == 0 {
        assert(base@ =~= Seq::empty());
    }
}

} // verus!
