use vstd::prelude::*;
use vstd::string::*;

use crate::ldtk::schema::opt_string_view;
use crate::ldtk::text::str_eq;

verus! {

/// Index of the first argument equal to `flag`.
pub open spec fn first_index_of(args: Seq<String>, flag: Seq<char>) -> Option<int> {
    if exists|i: int| 0 <= i < args.len() && #[trigger] args[i]@ == flag {
        Some(
            choose|i: int|
                0 <= i < args.len() && #[trigger] args[i]@ == flag && forall|j: int|
                    0 <= j < i ==> #[trigger] args[j]@ != flag,
        )
    } else {
        None
    }
}

/// The argument right after the first occurrence of `flag`, if both exist.
pub open spec fn arg_after(args: Seq<String>, flag: Seq<char>) -> Option<Seq<char>> {
    match first_index_of(args, flag) {
        Some(i) => if i + 1 < args.len() {
            Some(args[i + 1]@)
        } else {
            None
        },
        None => None,
    }
}

/// The value given after `flag` on the command line (`--input <path>`).
pub fn find_arg(args: &[String], flag: &str) -> (r: Option<String>)
    ensures
        opt_string_view(r) == arg_after(args@, flag@),
{
    let mut i: usize = 0;
    while i < args.len()
        invariant
            i <= args@.len(),
            forall|j: int| 0 <= j < i ==> #[trigger] args@[j]@ != flag@,
        decreases args@.len() - i,
    {
        if str_eq(args[i].as_str(), flag) {
            proof {
                let c = choose|c: int|
                    0 <= c < args@.len() && #[trigger] args@[c]@ == flag@ && forall|j: int|
                        0 <= j < c ==> #[trigger] args@[j]@ != flag@;
                assert(0 <= i < args@.len() && args@[i as int]@ == flag@ && forall|j: int|
                    0 <= j < i ==> #[trigger] args@[j]@ != flag@);
                if c < i {
                } else if c > i {
                    assert(args@[i as int]@ != flag@);
                }
                assert(first_index_of(args@, flag@) == Some(i as int));
            }
            if i + 1 < args.len() {
                return Some(args[i + 1].clone());
            } else {
                return None;
            }
        }
        i = i + 1;
    }
    None
}

} // verus!
