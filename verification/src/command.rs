//! The command to time, as given on the command line.

use vstd::prelude::*;
use vstd::string::*;

verus! {

/// `words` joined, with one space between each two.
pub open spec fn joined(words: Seq<Seq<char>>) -> Seq<char>
    decreases words.len(),
{
    if words.len() == 0 {
        Seq::empty()
    } else if words.len() == 1 {
        words[0]
    } else {
        joined(words.drop_last()) + " "@ + words.last()
    }
}

/// The command line to hand to the shell: the words after the program's
/// name, joined with spaces. Without a word there is nothing to run.
pub fn command_line(words: &Vec<String>) -> (line: Option<String>)
    ensures
        words.len() == 0 ==> line is None,
        words.len() > 0 ==> line is Some && line->0@ == joined(words.deep_view()),
{
    if words.len() == 0 {
        return None;
    }
    let ghost all = words.deep_view();
    let mut line = words[0].clone();
    let mut i: usize = 1;
    while i < words.len()
        invariant
            1 <= i <= words.len(),
            all == words.deep_view(),
            line@ == joined(all.take(i as int)),
        decreases words.len() - i,
    {
        line.append(" ");
        line.append(words[i].as_str());
        proof {
            let upto = all.take(i + 1);
            assert(upto.drop_last() =~= all.take(i as int));
        }
        i = i + 1;
    }
    assert(all.take(i as int) =~= all);
    Some(line)
}

} // verus!
