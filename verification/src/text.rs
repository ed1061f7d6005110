//! Text building blocks.

use vstd::prelude::*;
use vstd::string::StringExecFns;

verus! {

/// The decimal digit of a number below ten.
pub open spec fn digit(n: nat) -> char {
    ('0' as int + n) as char
}

/// A number in decimal notation, without leading zeros.
pub open spec fn decimal(n: nat) -> Seq<char>
    decreases n,
{
    if n < 10 {
        seq![digit(n)]
    } else {
        decimal(n / 10).push(digit(n % 10))
    }
}

/// `n` spaces.
pub open spec fn spaces(n: nat) -> Seq<char> {
    Seq::new(n, |i: int| ' ')
}

/// Text aligned to the right in a field of the given width; longer text is left as it is.
pub open spec fn right_aligned(text: Seq<char>, width: nat) -> Seq<char> {
    if text.len() >= width {
        text
    } else {
        spaces((width - text.len()) as nat) + text
    }
}

/// The digit of a number below ten, as text.
fn digit_text(n: u64) -> (text: &'static str)
    requires
        n < 10,
    ensures
        text@ == seq![digit(n as nat)],
{
    proof {
        reveal_strlit("0");
        reveal_strlit("1");
        reveal_strlit("2");
        reveal_strlit("3");
        reveal_strlit("4");
        reveal_strlit("5");
        reveal_strlit("6");
        reveal_strlit("7");
        reveal_strlit("8");
        reveal_strlit("9");
    }
    let text = match n {
        0 => "0",
        1 => "1",
        2 => "2",
        3 => "3",
        4 => "4",
        5 => "5",
        6 => "6",
        7 => "7",
        8 => "8",
        _ => "9",
    };
    assert(text@ =~= seq![digit(n as nat)]);
    text
}

/// Appends a number in decimal notation.
pub fn push_decimal(out: &mut String, n: u64)
    ensures
        final(out)@ == old(out)@ + decimal(n as nat),
    decreases n,
{
    if n >= 10 {
        push_decimal(out, n / 10);
    }
    out.append(digit_text(n % 10));
    assert(out@ =~= old(out)@ + decimal(n as nat));
}

/// Appends text aligned to the right in a field of the given width.
pub fn push_right_aligned(out: &mut String, text: &str, width: usize)
    ensures
        final(out)@ == old(out)@ + right_aligned(text@, width as nat),
{
    proof {
        reveal_strlit(" ");
    }
    let len: usize = text.unicode_len();
    let mut at: usize = len;
    assert(out@ =~= old(out)@ + spaces(0));
    while at < width
        invariant
            len == text@.len(),
            len <= at,
            at <= width || at == len,
            out@ == old(out)@ + spaces((at - len) as nat),
            " "@.len() == 1,
            " "@[0] == ' ',
        decreases width - at,
    {
        out.append(" ");
        at = at + 1;
        assert(out@ =~= old(out)@ + spaces((at - len) as nat));
    }
    out.append(text);
    assert(out@ =~= old(out)@ + right_aligned(text@, width as nat));
}

/// How a buffer describes itself: its name, its length and its capacity.
pub open spec fn buffer_text(name: Seq<char>, len: nat, capacity: nat) -> Seq<char> {
    name + " { len: "@ + decimal(len) + ", capacity: "@ + decimal(capacity) + " }"@
}

/// Describes a buffer by its name, its length and its capacity.
pub fn describe_buffer(name: &str, len: usize, capacity: usize) -> (text: String)
    ensures
        text@ == buffer_text(name@, len as nat, capacity as nat),
{
    let mut text = String::new();
    text.append(name);
    text.append(" { len: ");
    push_decimal(&mut text, len as u64);
    text.append(", capacity: ");
    push_decimal(&mut text, capacity as u64);
    text.append(" }");
    assert(text@ =~= buffer_text(name@, len as nat, capacity as nat));
    text
}

/// The number that a text of digits reads as.
pub open spec fn reads_as(text: Seq<char>) -> int
    decreases text.len(),
{
    if text.len() == 0 {
        0
    } else {
        10 * reads_as(text.drop_last()) + (text.last() as int - '0' as int)
    }
}

/// Decimal notation reads back as the number. It consists of digits and has no leading zero, unless
/// the number is zero.
pub proof fn law_decimal_reads_back(n: nat)
    ensures
        reads_as(decimal(n)) == n,
        decimal(n).len() > 0,
        forall|k: int| 0 <= k < decimal(n).len() ==> '0' <= #[trigger] decimal(n)[k] <= '9',
        n > 0 ==> decimal(n)[0] != '0',
        n < 10 ==> decimal(n).len() == 1,
    decreases n,
{
    reveal_with_fuel(reads_as, 2);
    if n < 10 {
        assert(decimal(n).drop_last() =~= Seq::empty());
    } else {
        law_decimal_reads_back(n / 10);
        assert(decimal(n).drop_last() =~= decimal(n / 10));
        assert(decimal(n)[0] == decimal(n / 10)[0]);
        assert forall|k: int| 0 <= k < decimal(n).len() implies '0' <= #[trigger] decimal(n)[k]
            <= '9' by {
            if k < decimal(n / 10).len() {
                assert(decimal(n)[k] == decimal(n / 10)[k]);
            }
        }
    }
}

/// Aligned text ends in the text itself, and what stands before it are as many spaces as the field
/// is wider.
pub proof fn law_alignment_pads_on_the_left(text: Seq<char>, width: nat)
    ensures
        ({
            let aligned = right_aligned(text, width);
            let pad = aligned.len() - text.len();
            &&& text.len() >= width ==> pad == 0
            &&& text.len() < width ==> aligned.len() == width
            &&& aligned.skip(pad) == text
            &&& forall|k: int| 0 <= k < pad ==> #[trigger] aligned[k] == ' '
        }),
{
    let aligned = right_aligned(text, width);
    assert(aligned.skip(aligned.len() - text.len()) =~= text);
}

/// A buffer describes itself by its name, its length and its capacity, in this order.
pub proof fn law_buffer_description(name: Seq<char>, len: nat, capacity: nat)
    ensures
        ({
            let text = buffer_text(name, len, capacity);
            let a = name + " { len: "@ + decimal(len);
            let b = ", capacity: "@ + decimal(capacity);
            &&& text.len() == a.len() + b.len() + " }"@.len()
            &&& text.take(a.len() as int) == a
            &&& text.skip(a.len() as int) == b + " }"@
        }),
{
    let text = buffer_text(name, len, capacity);
    let a = name + " { len: "@ + decimal(len);
    let b = ", capacity: "@ + decimal(capacity);
    assert(text =~= a + (b + " }"@));
    assert(text.take(a.len() as int) =~= a);
    assert(text.skip(a.len() as int) =~= b + " }"@);
}

} // verus!
