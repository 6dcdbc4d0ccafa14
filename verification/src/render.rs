use vstd::prelude::*;

verus! {

/// Relies on String::push: appends exactly the given character.
#[verifier::external_body]
pub(crate) fn push_char(s: &mut String, c: char)
    ensures
        final(s)@ == old(s)@.push(c),
{
    s.push(c)
}

/// The decimal digit character for a value below ten.
pub open spec fn digit_char(n: nat) -> char
    recommends
        n < 10,
{
    ((0x30 + n) as u8) as char
}

/// The decimal digit characters of a number, most significant first.
pub open spec fn dec_digits(n: nat) -> Seq<char>
    decreases n,
{
    if n < 10 {
        seq![digit_char(n)]
    } else {
        dec_digits(n / 10).push(digit_char(n % 10))
    }
}

/// Render a number in decimal.
pub fn u32_to_string(n: u32) -> (s: String)
    ensures
        s@ == dec_digits(n as nat),
    decreases n,
{
    if n < 10 {
        let mut s = String::new();
        push_char(&mut s, (0x30u8 + n as u8) as char);
        proof {
            assert(s@ =~= seq![digit_char(n as nat)]);
        }
        s
    } else {
        let mut s = u32_to_string(n / 10);
        push_char(&mut s, (0x30u8 + (n % 10) as u8) as char);
        s
    }
}

/// A single-character string.
pub fn char_to_string(c: char) -> (s: String)
    ensures
        s@ == seq![c],
    decreases c,
{
    let mut s = String::new();
    push_char(&mut s, c);
    proof {
        assert(s@ =~= seq![c]);
    }
    s
}

/// A text wrapped in single quotes.
pub open spec fn quoted(item: Seq<char>) -> Seq<char> {
    seq!['\''] + item + seq!['\'']
}

/// Texts wrapped in single quotes and joined with commas.
pub open spec fn comma_quoted(items: Seq<Seq<char>>) -> Seq<char>
    decreases items.len(),
{
    if items.len() == 0 {
        Seq::empty()
    } else if items.len() == 1 {
        quoted(items[0])
    } else {
        comma_quoted(items.drop_last()) + ", "@ + quoted(items.last())
    }
}

/// The message naming what a parse expected: one alternative quoted, many
/// alternatives quoted and listed, or none.
pub open spec fn expected_message(items: Seq<Seq<char>>) -> Seq<char> {
    if items.len() == 1 {
        "Expected "@ + quoted(items[0])
    } else if items.len() > 0 {
        "Expected one of "@ + comma_quoted(items)
    } else {
        "Expected none"@
    }
}

/// Append a text wrapped in single quotes.
fn append_quoted(s: &mut String, item: &String)
    ensures
        final(s)@ == old(s)@ + quoted(item@),
{
    push_char(s, '\'');
    s.append(item.as_str());
    push_char(s, '\'');
    proof {
        assert(final(s)@ =~= old(s)@ + quoted(item@));
    }
}

/// Render the expectation message over the given alternatives.
pub fn expected_message_exec(items: &Vec<String>) -> (s: String)
    ensures
        s@ == expected_message(items@.map_values(|x: String| x@)),
{
    let ghost texts = items@.map_values(|x: String| x@);
    if items.len() == 1 {
        let mut s = String::new();
        s.append("Expected ");
        append_quoted(&mut s, &items[0]);
        proof {
            assert(s@ =~= expected_message(texts));
        }
        s
    } else if items.len() > 0 {
        let mut s = String::new();
        s.append("Expected one of ");
        let mut i: usize = 0;
        while i < items.len()
            invariant
                0 < items@.len(),
                0 <= i <= items@.len(),
                texts == items@.map_values(|x: String| x@),
                i == 0 ==> s@ == "Expected one of "@,
                i > 0 ==> s@ == "Expected one of "@ + comma_quoted(texts.take(i as int)),
            decreases items@.len() - i,
        {
            if i > 0 {
                s.append(", ");
            }
            append_quoted(&mut s, &items[i]);
            proof {
                if i > 0 {
                    assert(texts.take(i as int + 1).drop_last() =~= texts.take(i as int));
                    assert(texts.take(i as int + 1).last() == texts[i as int]);
                    assert(s@ =~= "Expected one of "@ + comma_quoted(texts.take(i as int + 1)));
                } else {
                    assert(texts.take(1int).len() == 1);
                    assert(texts.take(1int)[0] == texts[0]);
                    assert(s@ =~= "Expected one of "@ + comma_quoted(texts.take(1int)));
                }
            }
            i += 1;
        }
        proof {
            assert(texts.take(items@.len() as int) =~= texts);
            assert(s@ =~= expected_message(texts));
        }
        s
    } else {
        let s = String::from_str("Expected none");
        proof {
            assert(s@ =~= expected_message(texts));
        }
        s
    }
}

} // verus!
