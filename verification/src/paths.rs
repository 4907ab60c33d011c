//! Turning the executable path reported for a process into the bare file
//! name the application table is keyed by: the part after the last
//! backslash separator, or the whole text when no separator occurs.

use vstd::prelude::*;

verus! {

/// The characters after the last backslash, or all of them when none
/// occurs; empty when the text ends with a backslash.
pub open spec fn executable_file_name(path: Seq<char>) -> Seq<char>
    decreases path.len(),
{
    if path.len() == 0 {
        path
    } else if path.last() == '\\' {
        Seq::empty()
    } else {
        executable_file_name(path.drop_last()).push(path.last())
    }
}

/// The final path component of a backslash-separated executable path.
pub fn executable_name_from_path(path: &str) -> (r: String)
    ensures
        r@ == executable_file_name(path@),
{
    let n = path.unicode_len();
    let mut cut: usize = 0;
    let mut i: usize = 0;
    while i < n
        invariant
            n == path@.len(),
            cut <= i <= n,
            executable_file_name(path@.take(i as int)) == path@.subrange(cut as int, i as int),
        decreases n - i,
    {
        let c = path.get_char(i);
        proof {
            assert(path@.take(i as int + 1).drop_last() =~= path@.take(i as int));
            assert(path@.take(i as int + 1).last() == path@[i as int]);
        }
        if c == '\\' {
            cut = i + 1;
            proof {
                assert(executable_file_name(path@.take(i as int + 1)) =~= path@.subrange(
                    cut as int,
                    i as int + 1,
                ));
            }
        } else {
            proof {
                assert(executable_file_name(path@.take(i as int + 1)) =~= path@.subrange(
                    cut as int,
                    i as int + 1,
                ));
            }
        }
        i += 1;
    }
    proof {
        assert(path@.take(n as int) =~= path@);
    }
    let tail = path.substring_char(cut, n);
    tail.to_owned()
}

} // verus!
