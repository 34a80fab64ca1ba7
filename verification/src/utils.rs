//! Display helpers: truncating long descriptions and stripping HTML tags.

use vstd::prelude::*;
use vstd::string::StrSliceExecFns;
use vstd::string::StringExecFns;

verus! {

/// The longest prefix, in characters, that `trim_chars` keeps.
pub const TRIM_LIMIT: usize = 256;

/// What `trim_chars` returns: the input itself when it is short enough,
/// otherwise its first `TRIM_LIMIT` characters followed by an ellipsis.
pub open spec fn spec_trim_chars(s: Seq<char>) -> Seq<char> {
    if s.len() <= TRIM_LIMIT {
        s
    } else {
        s.take(TRIM_LIMIT as int) + "..."@
    }
}

/// Truncates `input` to at most `TRIM_LIMIT` characters, marking a cut
/// with a trailing `...`.
pub fn trim_chars(input: &str) -> (r: String)
    ensures
        r@ == spec_trim_chars(input@),
{
    let n = input.unicode_len();
    if n <= TRIM_LIMIT {
        input.to_owned()
    } else {
        let prefix = input.substring_char(0, TRIM_LIMIT);
        let kept = prefix.to_owned();
        let r = kept.concat("...");
        proof {
            assert(r@ =~= spec_trim_chars(input@));
        }
        r
    }
}

/// What `remove_html_tags` returns: the characters that stand outside any
/// `<`...`>` pair, where `<` opens a tag, `>` closes one, and neither
/// bracket itself is kept.
pub open spec fn spec_strip_tags(s: Seq<char>, in_tag: bool) -> Seq<char>
    decreases s.len(),
{
    if s.len() == 0 {
        Seq::empty()
    } else if s[0] == '<' {
        spec_strip_tags(s.drop_first(), true)
    } else if s[0] == '>' {
        spec_strip_tags(s.drop_first(), false)
    } else if !in_tag {
        seq![s[0]] + spec_strip_tags(s.drop_first(), in_tag)
    } else {
        spec_strip_tags(s.drop_first(), in_tag)
    }
}

/// Relies on String::push: appends the given character to the end of the string.
#[verifier::external_body]
fn push_char(s: &mut String, c: char)
    ensures
        final(s)@ == old(s)@.push(c),
{
    s.push(c)
}

/// Removes HTML tags: drops every `<`...`>` run and both brackets,
/// keeping all other characters in order.
pub fn remove_html_tags(input: &str) -> (r: String)
    ensures
        r@ == spec_strip_tags(input@, false),
{
    let n = input.unicode_len();
    let mut result = String::new();
    let mut in_tag = false;
    let mut i: usize = 0;
    proof {
        assert(input@.skip(0) =~= input@);
        assert(result@ + spec_strip_tags(input@, false) =~= spec_strip_tags(input@, false));
    }
    while i < n
        invariant
            n == input@.len(),
            i <= n,
            result@ + spec_strip_tags(input@.skip(i as int), in_tag) == spec_strip_tags(
                input@,
                false,
            ),
        decreases n - i,
    {
        let ghost prev_result = result@;
        let ghost prev_tail = input@.skip(i as int);
        let c = input.get_char(i);
        if c == '<' {
            in_tag = true;
        } else if c == '>' {
            in_tag = false;
        } else if !in_tag {
            push_char(&mut result, c);
        }
        i = i + 1;
        proof {
            assert(prev_tail[0] == input@[i - 1]);
            assert(prev_tail.drop_first() =~= input@.skip(i as int));
            if c != '<' && c != '>' && !in_tag {
                assert(prev_result + (seq![c] + spec_strip_tags(input@.skip(i as int), in_tag))
                    =~= result@ + spec_strip_tags(input@.skip(i as int), in_tag));
            }
        }
    }
    proof {
        assert(input@.skip(n as int) =~= Seq::<char>::empty());
        assert(result@ + Seq::<char>::empty() =~= result@);
    }
    result
}

} // verus!
