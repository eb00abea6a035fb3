//! Small operations on text, each stated over the characters of the string.

use vstd::prelude::*;

verus! {

/// What an optional text says.
pub open spec fn text_view(t: Option<String>) -> Option<Seq<char>> {
    match t {
        Some(s) => Some(s@),
        None => None,
    }
}

/// What an outcome without a value says.
pub open spec fn outcome_view(r: Result<(), String>) -> Result<(), Seq<char>> {
    match r {
        Ok(()) => Ok(()),
        Err(e) => Err(e@),
    }
}

/// All outcomes that are well and hold no value are the same.
pub(crate) proof fn ok_is_ok(r: Result<(), Seq<char>>)
    ensures
        r is Ok ==> r == Ok::<(), Seq<char>>(()),
{
    match r {
        Ok(unit) => {
            assert(unit == ());
        },
        Err(_) => {},
    }
}

/// `s` without the slashes it begins with.
pub open spec fn trim_start(s: Seq<char>) -> Seq<char>
    decreases s.len(),
{
    if s.len() > 0 && s[0] == '/' {
        trim_start(s.skip(1))
    } else {
        s
    }
}

/// `s` without the slashes it ends with.
pub open spec fn trim_end(s: Seq<char>) -> Seq<char>
    decreases s.len(),
{
    if s.len() > 0 && s.last() == '/' {
        trim_end(s.drop_last())
    } else {
        s
    }
}

/// What follows the last slash of `s`; all of `s` where it has none.
pub open spec fn last_segment(s: Seq<char>) -> Seq<char>
    decreases s.len(),
{
    if s.len() == 0 || s.last() == '/' {
        Seq::empty()
    } else {
        last_segment(s.drop_last()).push(s.last())
    }
}

/// Whether `s` ends in a slash.
pub open spec fn slash_ended(s: Seq<char>) -> bool {
    s.len() > 0 && s.last() == '/'
}

/// Whether `s` begins with `prefix`.
pub open spec fn begins_with(s: Seq<char>, prefix: Seq<char>) -> bool {
    prefix.len() <= s.len() && s.take(prefix.len() as int) == prefix
}

/// The decimal digit `d`.
pub open spec fn digit_char(d: nat) -> char {
    (('0' as u32) + d) as char
}

/// `n` in decimal, without leading zeros.
pub open spec fn decimal(n: nat) -> Seq<char>
    decreases n,
{
    if n < 10 {
        seq![digit_char(n)]
    } else {
        decimal(n / 10).push(digit_char(n % 10))
    }
}

/// `n` in decimal, with a sign where it is negative.
pub open spec fn signed_decimal(n: int) -> Seq<char> {
    if n < 0 {
        seq!['-'] + decimal((-n) as nat)
    } else {
        decimal(n as nat)
    }
}

/// The lower-case hexadecimal digit `d`.
pub open spec fn hex_char(d: nat) -> char {
    if d < 10 {
        digit_char(d)
    } else {
        (('a' as u32) + d - 10) as char
    }
}

/// The last `width` hexadecimal digits of `n`, most significant first.
pub open spec fn hex_digits(n: nat, width: nat) -> Seq<char>
    decreases width,
{
    if width == 0 {
        Seq::empty()
    } else {
        hex_digits(n / 16, (width - 1) as nat).push(hex_char(n % 16))
    }
}

/// The number that the decimal digits of `s` write.
pub open spec fn decimal_value(s: Seq<char>) -> nat
    decreases s.len(),
{
    if s.len() == 0 {
        0
    } else {
        decimal_value(s.drop_last()) * 10 + ((s.last() as u32) - ('0' as u32)) as nat
    }
}

/// The characters of `s`, in order.
pub fn char_vec(s: &str) -> (chars: Vec<char>)
    ensures
        chars@ == s@,
{
    let mut chars: Vec<char> = Vec::new();
    for c in it: s.chars()
        invariant
            chars@ == it.seq().take(it.index() as int),
            it.seq() == s@,
    {
        chars.push(c);
    }
    chars
}

/// `s` without the slashes it begins with.
pub fn trim_start_slashes(s: &str) -> (r: String)
    ensures
        r@ == trim_start(s@),
{
    let chars = char_vec(s);
    let mut i: usize = 0;
    proof {
        assert(s@.skip(0) == s@);
    }
    while i < chars.len() && chars[i] == '/'
        invariant
            chars@ == s@,
            i <= chars.len(),
            trim_start(s@.skip(i as int)) == trim_start(s@),
        decreases chars.len() - i,
    {
        proof {
            assert(s@.skip(i as int).skip(1) == s@.skip(i + 1));
        }
        i = i + 1;
    }
    proof {
        assert(s@.subrange(i as int, s@.len() as int) == s@.skip(i as int));
    }
    s.substring_char(i, chars.len()).to_owned()
}

/// `s` without the slashes it ends with.
pub fn trim_end_slashes(s: &str) -> (r: String)
    ensures
        r@ == trim_end(s@),
{
    let chars = char_vec(s);
    let mut n: usize = chars.len();
    proof {
        assert(s@.take(n as int) == s@);
    }
    while n > 0 && chars[n - 1] == '/'
        invariant
            chars@ == s@,
            n <= chars.len(),
            trim_end(s@.take(n as int)) == trim_end(s@),
        decreases n,
    {
        proof {
            assert(s@.take(n as int).drop_last() == s@.take(n - 1));
        }
        n = n - 1;
    }
    proof {
        assert(s@.subrange(0, n as int) == s@.take(n as int));
    }
    s.substring_char(0, n).to_owned()
}

/// What follows the last slash of `s`; all of `s` where it has none.
pub fn last_path_segment(s: &str) -> (r: String)
    ensures
        r@ == last_segment(s@),
{
    let chars = char_vec(s);
    let mut n: usize = chars.len();
    proof {
        assert(s@.take(n as int) == s@);
        assert(s@.skip(n as int) == Seq::<char>::empty());
        assert(last_segment(s@) == last_segment(s@.take(n as int)) + s@.skip(n as int));
    }
    while n > 0 && chars[n - 1] != '/'
        invariant
            chars@ == s@,
            n <= chars.len(),
            last_segment(s@) == last_segment(s@.take(n as int)) + s@.skip(n as int),
        decreases n,
    {
        proof {
            let t = s@.take(n as int);
            assert(t.drop_last() == s@.take(n - 1));
            assert(last_segment(t) == last_segment(t.drop_last()).push(t.last()));
            assert(last_segment(t) + s@.skip(n as int) == last_segment(t.drop_last()) + s@.skip(
                n - 1,
            ));
        }
        n = n - 1;
    }
    proof {
        assert(last_segment(s@.take(n as int)) == Seq::<char>::empty());
        assert(s@.subrange(n as int, s@.len() as int) == s@.skip(n as int));
        assert(Seq::<char>::empty() + s@.skip(n as int) == s@.skip(n as int));
    }
    s.substring_char(n, chars.len()).to_owned()
}

/// The lower-case form of `s`, as `str::to_lowercase` gives it.
pub uninterp spec fn lowercase(s: Seq<char>) -> Seq<char>;

/// The upper-case form of `s`, as `str::to_uppercase` gives it.
pub uninterp spec fn uppercase(s: Seq<char>) -> Seq<char>;

/// Calls `str::to_lowercase`. The result depends on the characters of `s`
/// alone; which characters they become (Unicode's lower-case mapping) is not
/// spelled out here.
#[verifier::external_body]
pub(crate) fn lowercase_text(s: &str) -> (r: String)
    ensures
        r@ == lowercase(s@),
{
    s.to_lowercase()
}

/// Calls `str::to_uppercase`. The result depends on the characters of `s`
/// alone; which characters they become (Unicode's upper-case mapping) is not
/// spelled out here.
#[verifier::external_body]
pub(crate) fn uppercase_text(s: &str) -> (r: String)
    ensures
        r@ == uppercase(s@),
{
    s.to_uppercase()
}

/// Whether `s` ends in a slash.
pub fn ends_with_slash(s: &str) -> (r: bool)
    ensures
        r == slash_ended(s@),
{
    let n: usize = s.unicode_len();
    n > 0 && s.get_char(n - 1) == '/'
}

/// Whether `s` begins with `prefix`.
pub fn starts_with(s: &str, prefix: &str) -> (r: bool)
    ensures
        r == begins_with(s@, prefix@),
{
    let n: usize = prefix.unicode_len();
    if n > s.unicode_len() {
        return false;
    }
    proof {
        assert(s@.subrange(0, n as int) == s@.take(n as int));
    }
    same_text(s.substring_char(0, n), prefix)
}

/// Whether `a` and `b` are the same text.
pub fn same_text(a: &str, b: &str) -> (r: bool)
    ensures
        r == (a@ == b@),
{
    a.to_owned() == b.to_owned()
}

/// `a` followed by `b`.
pub fn join2(a: &str, b: &str) -> (r: String)
    ensures
        r@ == a@ + b@,
{
    let mut r = a.to_owned();
    r.append(b);
    r
}

/// `a`, `b` and `c`, one after the other.
pub fn join3(a: &str, b: &str, c: &str) -> (r: String)
    ensures
        r@ == a@ + b@ + c@,
{
    let mut r = a.to_owned();
    r.append(b);
    r.append(c);
    r
}

/// The text of one hexadecimal digit.
fn hex_str(d: u64) -> (r: &'static str)
    requires
        d < 16,
    ensures
        r@ == seq![hex_char(d as nat)],
{
    proof {
        reveal_strlit("0");
        reveal_strlit("1");
        reveal_strlit("2");
        reveal_strlit("3");
        reveal_strlit("4");
        reveal_strlit("5");
        reveal_strlit("6");
        reveal_strlit("7");
        reveal_strlit("8");
        reveal_strlit("9");
        reveal_strlit("a");
        reveal_strlit("b");
        reveal_strlit("c");
        reveal_strlit("d");
        reveal_strlit("e");
        reveal_strlit("f");
    }
    match d {
        0 => "0",
        1 => "1",
        2 => "2",
        3 => "3",
        4 => "4",
        5 => "5",
        6 => "6",
        7 => "7",
        8 => "8",
        9 => "9",
        10 => "a",
        11 => "b",
        12 => "c",
        13 => "d",
        14 => "e",
        _ => "f",
    }
}

/// `n` in decimal, without leading zeros.
pub fn decimal_text(n: u64) -> (r: String)
    ensures
        r@ == decimal(n as nat),
    decreases n,
{
    if n < 10 {
        hex_str(n).to_owned()
    } else {
        let mut r = decimal_text(n / 10);
        r.append(hex_str(n % 10));
        proof {
            assert(decimal((n / 10) as nat) + seq![digit_char((n % 10) as nat)] == decimal(
                (n / 10) as nat,
            ).push(digit_char((n % 10) as nat)));
        }
        r
    }
}

/// `n` in decimal, with a sign where it is negative.
pub fn signed_decimal_text(n: i64) -> (r: String)
    ensures
        r@ == signed_decimal(n as int),
{
    if n < 0 {
        proof {
            reveal_strlit("-");
            assert("-"@ == seq!['-']);
        }
        let magnitude: u64 = (-(n + 1)) as u64 + 1;
        join2("-", decimal_text(magnitude).as_str())
    } else {
        decimal_text(n as u64)
    }
}

/// `n` as sixteen lower-case hexadecimal digits.
pub fn hex16_text(n: u64) -> (r: String)
    ensures
        r@ == hex_digits(n as nat, 16),
{
    hex_text(n, 16)
}

fn hex_text(n: u64, width: u64) -> (r: String)
    ensures
        r@ == hex_digits(n as nat, width as nat),
    decreases width,
{
    if width == 0 {
        String::new()
    } else {
        let mut r = hex_text(n / 16, width - 1);
        r.append(hex_str(n % 16));
        proof {
            let head = hex_digits((n / 16) as nat, (width - 1) as nat);
            let d = hex_char((n % 16) as nat);
            assert(head + seq![d] == head.push(d));
        }
        r
    }
}

// ---------------------------------------------------------------------------
// What holds of these operations
// ---------------------------------------------------------------------------

/// Whether `s` has no slash.
pub open spec fn no_slash(s: Seq<char>) -> bool {
    forall|i: int| 0 <= i < s.len() ==> #[trigger] s[i] != '/'
}

/// Only slashes are taken off the front, and all of them.
pub proof fn law_trim_start(s: Seq<char>)
    ensures
        trim_start(s).len() <= s.len(),
        s.skip(s.len() - trim_start(s).len()) == trim_start(s),
        forall|i: int| 0 <= i < s.len() - trim_start(s).len() ==> #[trigger] s[i] == '/',
        trim_start(s).len() > 0 ==> trim_start(s)[0] != '/',
        trim_start(trim_start(s)) == trim_start(s),
    decreases s.len(),
{
    if s.len() > 0 && s[0] == '/' {
        let rest = s.skip(1);
        law_trim_start(rest);
        let cut = s.len() - trim_start(s).len();
        assert(rest.skip(cut - 1) =~= s.skip(cut));
        assert forall|i: int| 0 <= i < cut implies #[trigger] s[i] == '/' by {
            if i > 0 {
                assert(rest[i - 1] == '/');
            }
        }
    } else {
        assert(s.skip(0) =~= s);
    }
}

/// Only slashes are taken off the end, and all of them.
pub proof fn law_trim_end(s: Seq<char>)
    ensures
        trim_end(s).len() <= s.len(),
        s.take(trim_end(s).len() as int) == trim_end(s),
        forall|i: int| trim_end(s).len() <= i < s.len() ==> #[trigger] s[i] == '/',
        !slash_ended(trim_end(s)),
    decreases s.len(),
{
    if s.len() > 0 && s.last() == '/' {
        let front = s.drop_last();
        law_trim_end(front);
        assert(front.take(trim_end(s).len() as int) =~= s.take(trim_end(s).len() as int));
        assert forall|i: int| trim_end(s).len() <= i < s.len() implies #[trigger] s[i] == '/' by {
            if i < s.len() - 1 {
                assert(front[i] == '/');
            }
        }
    } else {
        assert(s.take(s.len() as int) =~= s);
    }
}

/// The last segment has no slash, and is what `s` ends with; before it stands
/// a slash or nothing.
pub proof fn law_last_segment(s: Seq<char>)
    ensures
        no_slash(last_segment(s)),
        last_segment(s).len() <= s.len(),
        s.skip(s.len() - last_segment(s).len()) == last_segment(s),
        last_segment(s).len() < s.len() ==> s[s.len() - last_segment(s).len() - 1] == '/',
    decreases s.len(),
{
    if s.len() > 0 && s.last() != '/' {
        let front = s.drop_last();
        law_last_segment(front);
        let cut = s.len() - last_segment(s).len();
        assert(s.skip(cut) =~= front.skip(cut).push(s.last()));
    } else {
        assert(s.skip(s.len() as int) =~= Seq::empty());
    }
}

/// What follows a slash and has none is the last segment.
pub proof fn law_last_segment_of(head: Seq<char>, name: Seq<char>)
    requires
        no_slash(name),
        head.len() == 0 || slash_ended(head),
    ensures
        last_segment(head + name) == name,
    decreases name.len(),
{
    if name.len() == 0 {
        assert(head + name =~= head);
        assert(name =~= Seq::empty());
    } else {
        let front = name.drop_last();
        assert forall|i: int| 0 <= i < front.len() implies #[trigger] front[i] != '/' by {
            assert(name[i] != '/');
        }
        law_last_segment_of(head, front);
        assert((head + name).drop_last() =~= head + front);
        assert(name[name.len() - 1] != '/');
        assert(front.push(name.last()) =~= name);
    }
}

/// Slashes are taken off the front of a text before anything behind them.
pub proof fn law_trim_start_of(a: Seq<char>, b: Seq<char>)
    ensures
        trim_start(a + b) == if trim_start(a).len() > 0 {
            trim_start(a) + b
        } else {
            trim_start(b)
        },
    decreases a.len(),
{
    if a.len() == 0 {
        assert(a + b =~= b);
    } else if a[0] == '/' {
        assert((a + b).skip(1) =~= a.skip(1) + b);
        law_trim_start_of(a.skip(1), b);
    }
}

/// Reading a number in decimal gives back the number that was written.
pub proof fn law_decimal(n: nat)
    ensures
        decimal_value(decimal(n)) == n,
        decimal(n).len() > 0,
        forall|i: int| 0 <= i < decimal(n).len() ==> '0' <= #[trigger] decimal(n)[i] <= '9',
    decreases n,
{
    reveal_with_fuel(decimal_value, 2);
    if n >= 10 {
        law_decimal(n / 10);
        assert(decimal(n).drop_last() =~= decimal(n / 10));
    } else {
        assert(decimal(n).drop_last() =~= Seq::empty());
    }
}

/// Whether `n` can be written with `width` hexadecimal digits.
pub open spec fn fits_hex(n: nat, width: nat) -> bool
    decreases width,
{
    if width == 0 {
        n == 0
    } else {
        fits_hex(n / 16, (width - 1) as nat)
    }
}

/// As many hexadecimal digits are written as were asked for, and different
/// numbers that fit are written differently.
pub proof fn law_hex_digits(a: nat, b: nat, width: nat)
    ensures
        hex_digits(a, width).len() == width,
        fits_hex(a, width) && fits_hex(b, width) && hex_digits(a, width) == hex_digits(b, width)
            ==> a == b,
    decreases width,
{
    if width > 0 {
        law_hex_digits(a / 16, b / 16, (width - 1) as nat);
        let x = hex_digits(a, width);
        let y = hex_digits(b, width);
        if x == y {
            assert(x.last() == y.last());
            assert(x.drop_last() =~= hex_digits(a / 16, (width - 1) as nat));
            assert(y.drop_last() =~= hex_digits(b / 16, (width - 1) as nat));
        }
    }
}

/// Whether `c` is a lower-case hexadecimal digit.
pub open spec fn is_lower_hex(c: char) -> bool {
    '0' <= c <= '9' || 'a' <= c <= 'f'
}

/// Numbers in hexadecimal are written in lower-case digits.
pub proof fn law_hex_is_lower(n: nat, width: nat)
    ensures
        forall|i: int|
            0 <= i < hex_digits(n, width).len() ==> is_lower_hex(#[trigger] hex_digits(n, width)[i]),
    decreases width,
{
    if width > 0 {
        law_hex_is_lower(n / 16, (width - 1) as nat);
        let front = hex_digits(n / 16, (width - 1) as nat);
        assert(is_lower_hex(hex_char(n % 16)));
        assert forall|i: int| 0 <= i < hex_digits(n, width).len() implies is_lower_hex(
            #[trigger] hex_digits(n, width)[i],
        ) by {
            if i < front.len() {
                assert(hex_digits(n, width)[i] == front[i]);
            }
        }
    }
}

/// A text ends in a slash if and only if it has a last character and that is one.
pub proof fn law_slash_ended(s: Seq<char>, c: char)
    ensures
        !slash_ended(Seq::empty()),
        slash_ended(s.push(c)) <==> c == '/',
{
}

/// A text begins with another if and only if something makes the other into it.
pub proof fn law_begins_with(s: Seq<char>, prefix: Seq<char>)
    ensures
        begins_with(prefix + s, prefix),
        begins_with(s, prefix) ==> s == prefix + s.skip(prefix.len() as int),
{
    assert((prefix + s).take(prefix.len() as int) =~= prefix);
    if begins_with(s, prefix) {
        assert(s =~= s.take(prefix.len() as int) + s.skip(prefix.len() as int));
    }
}

/// A number below ten is written as its digit, any other as what its tenth part
/// is written as, followed by the last digit; a negative one behind a sign.
pub proof fn law_decimal_digits(n: nat)
    ensures
        n < 10 ==> decimal(n).len() == 1 && decimal(n)[0] as int == 48 + n,
        n >= 10 ==> decimal(n) == decimal(n / 10) + decimal(n % 10),
        signed_decimal(n as int) == decimal(n),
        n > 0 ==> signed_decimal(-n) == seq!['-'] + decimal(n),
{
    if n >= 10 {
        assert(decimal(n / 10).push(digit_char(n % 10)) =~= decimal(n / 10) + decimal(n % 10));
    }
}

/// A number is written in hexadecimal as the digits of its sixteenth part,
/// followed by the last digit; digits from ten on are `a` to `f`.
pub proof fn law_hex_places(n: nat, width: nat, d: nat)
    ensures
        hex_digits(n, 0).len() == 0,
        hex_digits(n, width + 1) == hex_digits(n / 16, width) + hex_digits(n % 16, 1),
        d < 16 ==> hex_digits(d, 1).len() == 1 && hex_digits(d, 1)[0] as int == if d < 10 {
            48 + d
        } else {
            87 + d
        },
{
    reveal_with_fuel(hex_digits, 2);
    assert(hex_digits(n % 16, 1) =~= seq![hex_char(n % 16)]);
    assert(hex_digits(n, width + 1) =~= hex_digits(n / 16, width) + hex_digits(n % 16, 1));
}

} // verus!
