//! Text as Windows wants it: zero-terminated UTF-16, and numbers in decimal.
use vstd::prelude::*;

verus! {

/// The UTF-16 code units of one character: itself, or a surrogate pair.
pub open spec fn utf16_units(c: char) -> Seq<u16> {
    let code = c as int;
    if code < 0x1_0000 {
        seq![code as u16]
    } else {
        seq![
            (0xD800 + (code - 0x1_0000) / 0x400) as u16,
            (0xDC00 + (code - 0x1_0000) % 0x400) as u16,
        ]
    }
}

/// The UTF-16 encoding of a text.
pub open spec fn utf16(text: Seq<char>) -> Seq<u16>
    decreases text.len(),
{
    if text.len() == 0 {
        Seq::empty()
    } else {
        utf16(text.drop_last()) + utf16_units(text.last())
    }
}

/// A text as a wide string: its UTF-16 encoding and a terminating zero.
pub open spec fn wide(text: Seq<char>) -> Seq<u16> {
    utf16(text).push(0)
}

/// Appends the UTF-16 code units of one character.
fn push_char(units: &mut Vec<u16>, c: char)
    ensures
        final(units)@ == old(units)@ + utf16_units(c),
{
    let code: u32 = c as u32;
    if code < 0x1_0000 {
        units.push(code as u16);
    } else {
        units.push((0xD800 + (code - 0x1_0000) / 0x400) as u16);
        units.push((0xDC00 + (code - 0x1_0000) % 0x400) as u16);
    }
    assert(units@ =~= old(units)@ + utf16_units(c));
}

/// Encodes a text as a zero-terminated wide string.
pub fn to_wide(s: &str) -> (units: Vec<u16>)
    ensures
        units@ == wide(s@),
{
    let mut units: Vec<u16> = Vec::new();
    for c in chars: s.chars()
        invariant
            chars.seq() == s@,
            units@ == utf16(s@.take(chars.index() as int)),
    {
        push_char(&mut units, c);
        proof {
            let next = s@.take(chars.index() + 1);
            assert(next.drop_last() =~= s@.take(chars.index() as int));
            assert(next.last() == c);
            assert(units@ =~= utf16(next));
        }
    }
    assert(s@.take(s@.len() as int) =~= s@);
    units.push(0);
    units
}

/// Text becomes a wide string character by character. One of the first 65536
/// characters is its own code unit; any other is two, whose ten low bits each
/// make up what it exceeds them by. Wide strings of parts, each but the last
/// without its terminating zero, make up that of the whole.
pub proof fn law_wide_is_utf16(c: char, before: Seq<char>, after: Seq<char>)
    ensures
        wide(Seq::<char>::empty()) == seq![0u16],
        c as int <= 0xFFFF ==> wide(seq![c]) == seq![c as u16, 0u16],
        c as int > 0xFFFF ==> {
            let units = wide(seq![c]);
            &&& units.len() == 3 && units[2] == 0
            &&& 0xD800 <= units[0] < 0xDC00
            &&& 0xDC00 <= units[1] < 0xE000
            &&& 0x1_0000 + 0x400 * (units[0] - 0xD800) + (units[1] - 0xDC00) == c as int
        },
        wide(before + after) == wide(before).drop_last() + wide(after),
{
    reveal_with_fuel(utf16, 2);
    assert(seq![c].drop_last() =~= Seq::<char>::empty());
    assert(utf16(seq![c]) =~= utf16_units(c));
    assert(wide(Seq::<char>::empty()) =~= seq![0u16]);
    if c as int <= 0xFFFF {
        assert(wide(seq![c]) =~= seq![c as u16, 0u16]);
    }
    lemma_utf16_joins(before, after);
    assert(wide(before + after) =~= wide(before).drop_last() + wide(after));
}

proof fn lemma_utf16_joins(before: Seq<char>, after: Seq<char>)
    ensures
        utf16(before + after) == utf16(before) + utf16(after),
    decreases after.len(),
{
    if after.len() == 0 {
        assert(before + after =~= before);
        assert(utf16(before + after) =~= utf16(before) + utf16(after));
    } else {
        lemma_utf16_joins(before, after.drop_last());
        assert((before + after).drop_last() =~= before + after.drop_last());
        assert(utf16(before + after) =~= utf16(before) + utf16(after));
    }
}

/// A text of the first 65536 characters alone has one code unit for each.
pub proof fn law_wide_of_plain_text(text: Seq<char>, i: int)
    requires
        forall|j: int| 0 <= j < text.len() ==> (#[trigger] text[j]) as int <= 0xFFFF,
        0 <= i < text.len(),
    ensures
        wide(text).len() == text.len() + 1,
        wide(text)[i] as int == text[i] as int,
{
    lemma_plain_units(text);
    assert(wide(text)[i] == utf16(text)[i]);
}

proof fn lemma_plain_unit(c: char)
    requires
        c as int <= 0xFFFF,
    ensures
        utf16_units(c).len() == 1,
        utf16_units(c)[0] as int == c as int,
{
}

proof fn lemma_plain_units(text: Seq<char>)
    requires
        forall|j: int| 0 <= j < text.len() ==> (#[trigger] text[j]) as int <= 0xFFFF,
    ensures
        utf16(text).len() == text.len(),
        forall|j: int|
            0 <= j < text.len() ==> (#[trigger] utf16(text)[j]) as int == text[j] as int,
    decreases text.len(),
{
    if text.len() > 0 {
        let front = text.drop_last();
        assert forall|j: int| 0 <= j < front.len() implies (#[trigger] front[j]) as int
            <= 0xFFFF by {
            assert(front[j] == text[j]);
        }
        lemma_plain_units(front);
        assert(text.last() == text[text.len() - 1]);
        assert forall|j: int| 0 <= j < text.len() implies (#[trigger] utf16(text)[j]) as int
            == text[j] as int by {
            if j < front.len() {
                assert(utf16(text)[j] == utf16(front)[j]);
                assert(front[j] == text[j]);
            } else {
                assert(j == utf16(front).len());
                assert(text[j] as int <= 0xFFFF);
                assert(utf16(text)[j] == utf16_units(text.last())[0]);
                lemma_plain_unit(text.last());
            }
        }
    }
}

/// A wide string ends in a zero, and has no other zero exactly if its text
/// holds no NUL character: only then does a reader that stops at the first
/// zero see all of it.
pub proof fn law_wide_is_terminated(text: Seq<char>)
    ensures
        wide(text).last() == 0,
        wide(text).drop_last().contains(0u16) <==> text.contains('\0'),
{
    assert(wide(text).drop_last() =~= utf16(text));
    lemma_zero_units(text);
}

proof fn lemma_zero_units(text: Seq<char>)
    ensures
        utf16(text).contains(0u16) <==> text.contains('\0'),
    decreases text.len(),
{
    if text.len() > 0 {
        let front = text.drop_last();
        let units = utf16_units(text.last());
        lemma_zero_units(front);
        if utf16(text).contains(0u16) {
            let i = choose|i: int| 0 <= i < utf16(text).len() && utf16(text)[i] == 0;
            if i < utf16(front).len() {
                assert(utf16(front)[i] == 0);
                let j = choose|j: int| 0 <= j < front.len() && front[j] == '\0';
                assert(text[j] == '\0');
            } else {
                assert(units[i - utf16(front).len()] == 0);
                lemma_zero_char(text.last());
                assert(text[text.len() - 1] == '\0');
            }
        }
        if text.contains('\0') {
            let j = choose|j: int| 0 <= j < text.len() && text[j] == '\0';
            if j < front.len() {
                assert(front[j] == '\0');
                let i = choose|i: int| 0 <= i < utf16(front).len() && utf16(front)[i] == 0;
                assert(utf16(text)[i] == 0);
            } else {
                assert(utf16(text)[utf16(front).len() as int] == units[0]);
            }
        }
    }
}

proof fn lemma_zero_char(c: char)
    ensures
        utf16_units(c).contains(0u16) ==> c == '\0',
{
}

/// A wide string determines its text: the encoding loses nothing.
pub proof fn law_wide_is_faithful(a: Seq<char>, b: Seq<char>)
    requires
        wide(a) == wide(b),
    ensures
        a == b,
{
    assert(wide(a).drop_last() =~= utf16(a));
    assert(wide(b).drop_last() =~= utf16(b));
    lemma_utf16_injective(a, b);
}

proof fn lemma_utf16_injective(a: Seq<char>, b: Seq<char>)
    requires
        utf16(a) == utf16(b),
    ensures
        a == b,
    decreases a.len(),
{
    if a.len() > 0 && b.len() > 0 {
        let (fa, fb) = (a.drop_last(), b.drop_last());
        let (ua, ub) = (utf16_units(a.last()), utf16_units(b.last()));
        lemma_last_units(a.last(), b.last());
        assert(utf16(a).last() == ua.last());
        assert(utf16(b).last() == ub.last());
        assert(ua.len() == ub.len());
        assert(utf16(a).take(utf16(a).len() - ua.len()) =~= utf16(fa));
        assert(utf16(b).take(utf16(b).len() - ub.len()) =~= utf16(fb));
        lemma_utf16_injective(fa, fb);
        assert(utf16(a).skip(utf16(fa).len() as int) =~= ua);
        assert(utf16(b).skip(utf16(fb).len() as int) =~= ub);
        lemma_units_injective(a.last(), b.last());
        assert(a =~= fa.push(a.last()));
        assert(b =~= fb.push(b.last()));
    } else if a.len() > 0 {
        assert(utf16_units(a.last()).len() > 0);
    } else if b.len() > 0 {
        assert(utf16_units(b.last()).len() > 0);
    } else {
        assert(a =~= b);
    }
}

proof fn lemma_last_units(c: char, d: char)
    ensures
        utf16_units(c).last() == utf16_units(d).last() ==> utf16_units(c).len() == utf16_units(
            d,
        ).len(),
{
}

proof fn lemma_units_injective(c: char, d: char)
    requires
        utf16_units(c) == utf16_units(d),
    ensures
        c == d,
{
    let (uc, ud) = (utf16_units(c), utf16_units(d));
    assert(uc[0] == ud[0]);
    assert(uc.last() == ud.last());
}

/// The character of a decimal digit.
pub open spec fn digit(d: nat) -> char {
    ('0' as int + d) as char
}

/// A number written in decimal, without leading zeros.
pub open spec fn decimal(n: nat) -> Seq<char>
    decreases n,
{
    if n < 10 {
        seq![digit(n)]
    } else {
        decimal(n / 10).push(digit(n % 10))
    }
}

/// The number that decimal digits stand for.
pub open spec fn value_of(digits: Seq<char>) -> int
    decreases digits.len(),
{
    if digits.len() == 0 {
        0
    } else {
        10 * value_of(digits.drop_last()) + (digits.last() as int - '0' as int)
    }
}

/// A number can be read back from its decimal digits, of which the first is
/// zero only if it is the only one.
pub proof fn law_decimal_reads_back(n: nat)
    ensures
        value_of(decimal(n)) == n,
        decimal(n).len() > 0,
        decimal(n)[0] == '0' ==> n == 0 && decimal(n).len() == 1,
    decreases n,
{
    if n < 10 {
        reveal_with_fuel(value_of, 2);
        assert(decimal(n).drop_last() =~= Seq::<char>::empty());
    } else {
        law_decimal_reads_back(n / 10);
        assert(decimal(n).drop_last() =~= decimal(n / 10));
    }
}

/// A number below ten is its digit, and ten times a number and a digit more is
/// that number's digits with the digit behind them.
pub proof fn law_decimal_goes_digit_by_digit(n: nat, d: nat)
    requires
        d < 10,
    ensures
        decimal(d).len() == 1,
        decimal(d)[0] as int == 0x30 + d,
        n > 0 ==> decimal((10 * n + d) as nat) == decimal(n) + decimal(d),
{
    if n > 0 {
        let m = (10 * n + d) as nat;
        assert(m / 10 == n && m % 10 == d);
        assert(decimal(m) =~= decimal(n) + decimal(d));
    }
}

fn digit_text(d: u32) -> (text: &'static str)
    requires
        d < 10,
    ensures
        text@ == seq![digit(d as nat)],
{
    proof {
        reveal_strlit("0");
        reveal_strlit("1");
        reveal_strlit("2");
        reveal_strlit("3");
        reveal_strlit("4");
        reveal_strlit("5");
        reveal_strlit("6");
        reveal_strlit("7");
        reveal_strlit("8");
        reveal_strlit("9");
    }
    match d {
        0 => "0",
        1 => "1",
        2 => "2",
        3 => "3",
        4 => "4",
        5 => "5",
        6 => "6",
        7 => "7",
        8 => "8",
        _ => "9",
    }
}

/// Writes a number in decimal.
pub fn to_decimal(n: u32) -> (text: String)
    ensures
        text@ == decimal(n as nat),
    decreases n,
{
    if n < 10 {
        digit_text(n).to_string()
    } else {
        let mut text = to_decimal(n / 10);
        text.append(digit_text(n % 10));
        text
    }
}

} // verus!
