//! Text as sequences of characters: decimal numbers, splitting, trimming and
//! searching, each with the mathematical meaning that the rest of the crate's
//! contracts are written in.
use vstd::prelude::*;

verus! {

broadcast use vstd::string::group_string_axioms;

/// `String::push` of std: the character becomes the last one.
pub assume_specification[ std::string::String::push ](s: &mut std::string::String, c: char)
    ensures
        final(s)@ == old(s)@.push(c),
;

/// Equality of string slices in std: equal exactly when they hold the same characters.
pub assume_specification[ <str as PartialEq>::eq ](x: &str, y: &str) -> (r: bool)
    ensures
        r == (x@ == y@),
;

/// Whether two string slices hold the same characters.
pub fn same(a: &str, b: &str) -> (r: bool)
    ensures
        r == (a@ == b@),
{
    *a == *b
}

/// The characters of a string slice.
pub fn chars_of(s: &str) -> (r: Vec<char>)
    ensures
        r@ == s@,
{
    let mut out: Vec<char> = Vec::new();
    for c in it: s.chars()
        invariant
            it.seq() == s@,
            0 <= it.index() <= s@.len(),
            out@ == s@.take(it.index() as int),
    {
        out.push(c);
        assert(s@.take(it.index() as int + 1) =~= s@.take(it.index() as int).push(c));
    }
    assert(s@.take(s@.len() as int) =~= s@);
    out
}

/// The string made of the given characters.
pub fn string_of(chars: &[char]) -> (r: String)
    ensures
        r@ == chars@,
{
    let mut out = String::new();
    let mut i: usize = 0;
    while i < chars.len()
        invariant
            i <= chars.len(),
            out@ == chars@.take(i as int),
        decreases chars.len() - i,
    {
        out.push(chars[i]);
        i = i + 1;
        assert(chars@.take(i as int) =~= chars@.take(i - 1).push(chars@[i - 1]));
    }
    assert(chars@.take(i as int) =~= chars@);
    out
}

/// The character of a decimal digit.
pub open spec fn digit_char(d: int) -> char {
    (48 + d) as char
}

/// The decimal digits of a natural number, most significant first, without leading zeros.
pub open spec fn dec(n: nat) -> Seq<char>
    decreases n,
{
    if n < 10 {
        seq![digit_char(n as int)]
    } else {
        dec(n / 10).push(digit_char((n % 10) as int))
    }
}

/// The decimal text of an integer, with a leading `-` where it is negative.
pub open spec fn dec_int(n: int) -> Seq<char> {
    if n < 0 {
        seq!['-'] + dec((-n) as nat)
    } else {
        dec(n as nat)
    }
}

fn push_digit(s: &mut String, d: u8)
    requires
        d < 10,
    ensures
        final(s)@ == old(s)@.push(digit_char(d as int)),
{
    let c: char = (48u8 + d) as char;
    s.push(c);
}


/// Appends the decimal digits of `n`.
pub fn push_dec(s: &mut String, n: u128)
    ensures
        final(s)@ == old(s)@ + dec(n as nat),
    decreases n,
{
    let ghost before = s@;
    if n >= 10 {
        push_dec(s, n / 10);
    }
    push_digit(s, (n % 10) as u8);
    assert(s@ =~= before + dec(n as nat));
}

/// The decimal text of an unsigned number.
pub fn dec_text(n: u128) -> (r: String)
    ensures
        r@ == dec(n as nat),
{
    let mut out = String::new();
    push_dec(&mut out, n);
    assert(out@ =~= dec(n as nat));
    out
}

/// The decimal text of a signed number.
pub fn dec_int_text(n: i128) -> (r: String)
    ensures
        r@ == dec_int(n as int),
{
    let mut out = String::new();
    if n < 0 {
        out.push('-');
        let magnitude: u128 = ((-(n + 1)) as u128) + 1;
        push_dec(&mut out, magnitude);
    } else {
        push_dec(&mut out, n as u128);
    }
    assert(out@ =~= dec_int(n as int));
    out
}

/// Whether a character is one of the ten ASCII digits.
pub open spec fn is_digit(c: char) -> bool {
    '0' <= c && c <= '9'
}

/// Whether every character is an ASCII digit.
pub open spec fn all_digits(s: Seq<char>) -> bool {
    forall|i: int| 0 <= i < s.len() ==> is_digit(#[trigger] s[i])
}

/// The number that a sequence of digits stands for.
pub open spec fn digits_value(s: Seq<char>) -> nat
    decreases s.len(),
{
    if s.len() == 0 {
        0
    } else {
        digits_value(s.drop_last()) * 10 + ((s.last() as int - 48) as nat)
    }
}

/// What an unsigned decimal number reads as: an optional `+`, then one or more digits and
/// nothing else.
pub open spec fn parse_nat(s: Seq<char>) -> Option<nat> {
    let body = if s.len() > 0 && s[0] == '+' {
        s.skip(1)
    } else {
        s
    };
    if body.len() > 0 && all_digits(body) {
        Some(digits_value(body))
    } else {
        None
    }
}

/// `parse_nat`, as far as the number does not exceed `max`.
pub open spec fn parse_bounded(s: Seq<char>, max: nat) -> Option<nat> {
    match parse_nat(s) {
        Some(n) => if n <= max {
            Some(n)
        } else {
            None
        },
        None => None,
    }
}

proof fn lemma_digits_value_monotone(s: Seq<char>, k: int)
    requires
        0 <= k <= s.len(),
    ensures
        digits_value(s.take(k)) <= digits_value(s),
    decreases s.len() - k,
{
    if k == s.len() {
        assert(s.take(k) =~= s);
    } else {
        lemma_digits_value_monotone(s, k + 1);
        assert(s.take(k + 1).drop_last() =~= s.take(k));
    }
}

/// Reads an unsigned decimal number that must not exceed `max`.
fn parse_up_to(s: &str, max: u64) -> (r: Option<u64>)
    ensures
        r is Some <==> parse_bounded(s@, max as nat) is Some,
        r is Some ==> r->0 as nat == parse_bounded(s@, max as nat)->0,
{
    let chars = chars_of(s);
    let start: usize = if chars.len() > 0 && chars[0] == '+' {
        1
    } else {
        0
    };
    let ghost body = if s@.len() > 0 && s@[0] == '+' {
        s@.skip(1)
    } else {
        s@
    };
    assert(body =~= chars@.skip(start as int));
    if chars.len() == start {
        return None;
    }
    let mut i: usize = start;
    let mut value: u64 = 0;
    while i < chars.len()
        invariant
            start <= i <= chars.len(),
            body == chars@.skip(start as int),
            all_digits(body.take(i - start)),
            value as nat == digits_value(body.take(i - start)),
            value <= max,
            parse_nat(s@) == (if body.len() > 0 && all_digits(body) {
                Some(digits_value(body))
            } else {
                None
            }),
            body.len() > 0,
        decreases chars.len() - i,
    {
        let c = chars[i];
        assert(body[i - start] == c);
        if c < '0' || c > '9' {
            assert(!is_digit(body[i - start]));
            return None;
        }
        let d: u64 = (c as u64) - 48;
        let ghost k = i - start;
        assert(body.take(k + 1).drop_last() =~= body.take(k));
        assert(body.take(k + 1).last() == c);
        if d > max || value > (max - d) / 10 {
            proof {
                lemma_digits_value_monotone(body, k + 1);
                assert(digits_value(body.take(k + 1)) == value * 10 + d);
                if d > max {
                    assert(digits_value(body) > max);
                } else {
                    assert(value * 10 + d > max) by (nonlinear_arith)
                        requires
                            value > (max - d) / 10,
                            d <= max,
                    ;
                }
            }
            return None;
        }
        assert(value * 10 + d <= max) by (nonlinear_arith)
            requires
                value <= (max - d) / 10,
                d <= max,
        ;
        value = value * 10 + d;
        i = i + 1;
    }
    assert(body.take(i - start) =~= body);
    Some(value)
}

/// Reads a `u64` in decimal, as `str::parse` does.
pub fn parse_u64(s: &str) -> (r: Option<u64>)
    ensures
        r is Some <==> parse_bounded(s@, u64::MAX as nat) is Some,
        r is Some ==> r->0 as nat == parse_bounded(s@, u64::MAX as nat)->0,
{
    parse_up_to(s, u64::MAX)
}

/// Reads a `u32` in decimal, as `str::parse` does.
pub fn parse_u32(s: &str) -> (r: Option<u32>)
    ensures
        r is Some <==> parse_bounded(s@, u32::MAX as nat) is Some,
        r is Some ==> r->0 as nat == parse_bounded(s@, u32::MAX as nat)->0,
{
    match parse_up_to(s, u32::MAX as u64) {
        Some(n) => Some(n as u32),
        None => None,
    }
}

/// The decimal text of a number is made of digits and stands for that number.
pub proof fn lemma_dec_value(n: nat)
    ensures
        all_digits(dec(n)),
        dec(n).len() > 0,
        digits_value(dec(n)) == n,
    decreases n,
{
    if n >= 10 {
        lemma_dec_value(n / 10);
        assert(dec(n).drop_last() =~= dec(n / 10));
        assert(dec(n).last() as int == 48 + n % 10);
    } else {
        assert(dec(n).drop_last() =~= Seq::<char>::empty());
        assert(digits_value(dec(n).drop_last()) == 0);
        assert(dec(n).last() as int == 48 + n);
    }
}

/// Reading the decimal text of a number gives the number back.
pub proof fn dec_parses_back(n: nat)
    ensures
        parse_nat(dec(n)) == Some(n),
{
    lemma_dec_value(n);
    assert(is_digit(dec(n)[0]));
}

/// Two numbers with the same decimal text are the same.
pub proof fn dec_injective(a: nat, b: nat)
    requires
        dec(a) == dec(b),
    ensures
        a == b,
{
    lemma_dec_value(a);
    lemma_dec_value(b);
}

/// Two integers with the same decimal text are the same.
pub proof fn dec_int_injective(a: int, b: int)
    requires
        dec_int(a) == dec_int(b),
    ensures
        a == b,
{
    let m = if a < 0 {
        -a
    } else {
        a
    } as nat;
    let n = if b < 0 {
        -b
    } else {
        b
    } as nat;
    lemma_dec_value(m);
    lemma_dec_value(n);
    assert(is_digit(dec(m)[0]));
    assert(is_digit(dec(n)[0]));
    if a < 0 {
        assert(dec_int(a)[0] == '-');
        assert(dec_int(a).skip(1) =~= dec(m));
    }
    if b < 0 {
        assert(dec_int(b)[0] == '-');
        assert(dec_int(b).skip(1) =~= dec(n));
    }
}

/// The pieces of `s` between the occurrences of `sep`, in order. There is always one piece
/// more than there are separators.
pub open spec fn split(s: Seq<char>, sep: char) -> Seq<Seq<char>>
    decreases s.len(),
{
    if s.len() == 0 {
        seq![Seq::<char>::empty()]
    } else {
        let before = split(s.drop_last(), sep);
        if s.last() == sep {
            before.push(Seq::<char>::empty())
        } else {
            before.drop_last().push(before.last().push(s.last()))
        }
    }
}

/// Texts with `sep` between each two of them.
pub open spec fn join(parts: Seq<Seq<char>>, sep: Seq<char>) -> Seq<char>
    decreases parts.len(),
{
    if parts.len() == 0 {
        Seq::<char>::empty()
    } else if parts.len() == 1 {
        parts[0]
    } else {
        join(parts.drop_last(), sep) + sep + parts.last()
    }
}

/// The characters of each string.
pub open spec fn views(v: Seq<String>) -> Seq<Seq<char>> {
    Seq::new(v.len(), |i: int| v[i]@)
}

/// The characters of each vector.
pub open spec fn char_views(v: Seq<Vec<char>>) -> Seq<Seq<char>> {
    Seq::new(v.len(), |i: int| v[i]@)
}

/// Splitting loses nothing: no piece holds the separator, and the pieces joined by it are the
/// text again.
pub proof fn split_joins_back(s: Seq<char>, sep: char)
    ensures
        split(s, sep).len() > 0,
        join(split(s, sep), seq![sep]) == s,
        forall|i: int| 0 <= i < split(s, sep).len() ==> !(#[trigger] split(s, sep)[i]).contains(sep),
    decreases s.len(),
{
    let pieces = split(s, sep);
    if s.len() == 0 {
        assert(pieces[0] =~= s);
    } else {
        let rest = s.drop_last();
        let before = split(rest, sep);
        split_joins_back(rest, sep);
        if s.last() == sep {
            assert(pieces.drop_last() =~= before);
            assert(join(pieces, seq![sep]) =~= s);
            assert forall|i: int| 0 <= i < pieces.len() implies !(#[trigger] pieces[i]).contains(sep) by {
                if i < before.len() {
                    assert(pieces[i] == before[i]);
                }
            }
        } else {
            assert(pieces.drop_last() =~= before.drop_last());
            if before.len() > 1 {
                assert(join(pieces, seq![sep]) =~= join(before, seq![sep]).push(s.last()));
            } else {
                assert(pieces[0] == before[0].push(s.last()));
            }
            assert(join(pieces, seq![sep]) =~= s);
            assert forall|i: int| 0 <= i < pieces.len() implies !(#[trigger] pieces[i]).contains(sep) by {
                if i < before.len() - 1 {
                    assert(pieces[i] == before[i]);
                } else {
                    let last = before.last();
                    assert(pieces[i] == last.push(s.last()));
                    assert(!before[before.len() - 1].contains(sep));
                    if pieces[i].contains(sep) {
                        let j = choose|j: int| 0 <= j < pieces[i].len() && pieces[i][j] == sep;
                        assert(last[j] == sep);
                        assert(last.contains(sep));
                    }
                }
            }
        }
    }
}

/// Splits a text at every `sep`.
pub fn split_chars(s: &[char], sep: char) -> (r: Vec<Vec<char>>)
    ensures
        char_views(r@) == split(s@, sep),
        r@.len() > 0,
{
    let mut pieces: Vec<Vec<char>> = Vec::new();
    let mut current: Vec<char> = Vec::new();
    let mut i: usize = 0;
    assert(char_views(pieces@).push(current@) =~= split(s@.take(0), sep));
    while i < s.len()
        invariant
            i <= s.len(),
            char_views(pieces@).push(current@) == split(s@.take(i as int), sep),
        decreases s.len() - i,
    {
        let c = s[i];
        let ghost old_pieces = char_views(pieces@);
        let ghost old_current = current@;
        assert(s@.take(i + 1).drop_last() =~= s@.take(i as int));
        if c == sep {
            pieces.push(current);
            current = Vec::new();
            assert(char_views(pieces@) =~= old_pieces.push(old_current));
        } else {
            current.push(c);
            assert(old_pieces.push(old_current).drop_last() =~= old_pieces);
        }
        i = i + 1;
    }
    assert(s@.take(i as int) =~= s@);
    let ghost old_pieces = char_views(pieces@);
    pieces.push(current);
    assert(char_views(pieces@) =~= old_pieces.push(current@));
    pieces
}

/// Whether a character has Unicode's `White_Space` property.
pub open spec fn is_space(c: char) -> bool {
    let n = c as u32;
    (9 <= n && n <= 13) || n == 32 || n == 0x85 || n == 0xA0 || n == 0x1680 || (0x2000 <= n && n
        <= 0x200A) || n == 0x2028 || n == 0x2029 || n == 0x202F || n == 0x205F || n == 0x3000
}

/// Whether a character has Unicode's `White_Space` property.
pub fn space(c: char) -> (r: bool)
    ensures
        r == is_space(c),
{
    let n: u32 = c as u32;
    (9 <= n && n <= 13) || n == 32 || n == 0x85 || n == 0xA0 || n == 0x1680 || (0x2000 <= n && n
        <= 0x200A) || n == 0x2028 || n == 0x2029 || n == 0x202F || n == 0x205F || n == 0x3000
}

/// A text without its leading white space.
pub open spec fn trim_start(s: Seq<char>) -> Seq<char>
    decreases s.len(),
{
    if s.len() > 0 && is_space(s[0]) {
        trim_start(s.skip(1))
    } else {
        s
    }
}

/// A text without its trailing white space.
pub open spec fn trim_end(s: Seq<char>) -> Seq<char>
    decreases s.len(),
{
    if s.len() > 0 && is_space(s.last()) {
        trim_end(s.drop_last())
    } else {
        s
    }
}

/// A text without the white space at both its ends.
pub open spec fn trim(s: Seq<char>) -> Seq<char> {
    trim_end(trim_start(s))
}

/// Removes the white space at both ends.
pub fn trim_chars(s: &[char]) -> (r: Vec<char>)
    ensures
        r@ == trim(s@),
{
    let mut start: usize = 0;
    assert(s@.skip(0) =~= s@);
    while start < s.len() && space(s[start])
        invariant
            start <= s.len(),
            trim_start(s@.skip(start as int)) == trim_start(s@),
        decreases s.len() - start,
    {
        assert(s@.skip(start as int).skip(1) =~= s@.skip(start + 1));
        start = start + 1;
    }
    assert(trim_start(s@) == s@.skip(start as int));
    let ghost core = s@.skip(start as int);
    let mut end: usize = s.len();
    assert(s@.subrange(start as int, end as int) =~= core);
    while end > start && space(s[end - 1])
        invariant
            start <= end <= s.len(),
            trim_end(s@.subrange(start as int, end as int)) == trim_end(core),
        decreases end,
    {
        assert(s@.subrange(start as int, end as int).drop_last() =~= s@.subrange(start as int, end
            - 1));
        end = end - 1;
    }
    assert(trim_end(core) == s@.subrange(start as int, end as int));
    let mut out: Vec<char> = Vec::new();
    let mut i: usize = start;
    while i < end
        invariant
            start <= i <= end <= s.len(),
            out@ == s@.subrange(start as int, i as int),
        decreases end - i,
    {
        out.push(s[i]);
        i = i + 1;
        assert(s@.subrange(start as int, i as int) =~= s@.subrange(start as int, i - 1).push(
            s@[i - 1],
        ));
    }
    out
}

/// Whether `t` stands in `s` at position `i`.
pub open spec fn occurs_at(s: Seq<char>, t: Seq<char>, i: int) -> bool {
    0 <= i && i + t.len() <= s.len() && s.subrange(i, i + t.len()) == t
}

/// Whether `t` stands somewhere in `s`.
pub open spec fn has_text(s: Seq<char>, t: Seq<char>) -> bool {
    exists|i: int| occurs_at(s, t, i)
}

fn occurs(s: &[char], t: &[char], i: usize) -> (r: bool)
    requires
        i + t.len() <= s.len(),
    ensures
        r == occurs_at(s@, t@, i as int),
{
    let mut k: usize = 0;
    while k < t.len()
        invariant
            k <= t.len(),
            i + t.len() <= s.len(),
            forall|j: int| 0 <= j < k ==> s@[i + j] == #[trigger] t@[j],
        decreases t.len() - k,
    {
        if s[i + k] != t[k] {
            assert(s@.subrange(i as int, i + t@.len())[k as int] != t@[k as int]);
            return false;
        }
        k = k + 1;
    }
    assert(s@.subrange(i as int, i + t@.len()) =~= t@);
    true
}

/// Whether `t` stands somewhere in `s`.
pub fn contains_text(s: &str, t: &str) -> (r: bool)
    ensures
        r == has_text(s@, t@),
{
    let a = chars_of(s);
    let b = chars_of(t);
    if b.len() > a.len() {
        return false;
    }
    let last: usize = a.len() - b.len();
    let mut i: usize = 0;
    while i <= last
        invariant
            last == a.len() - b.len(),
            a@ == s@,
            b@ == t@,
            i <= last + 1,
            b.len() <= a.len(),
            forall|j: int| 0 <= j < i ==> !occurs_at(a@, b@, j),
        decreases last + 1 - i,
    {
        if occurs(&a, &b, i) {
            return true;
        }
        if i == last {
            assert forall|j: int| !occurs_at(s@, t@, j) by {}
            return false;
        }
        i = i + 1;
    }
    false
}

/// Whether `s` begins with `t`.
pub open spec fn begins_with(s: Seq<char>, t: Seq<char>) -> bool {
    occurs_at(s, t, 0)
}

/// Whether `s` begins with `t`.
pub fn starts_with(s: &str, t: &str) -> (r: bool)
    ensures
        r == begins_with(s@, t@),
{
    let a = chars_of(s);
    let b = chars_of(t);
    if b.len() > a.len() {
        return false;
    }
    occurs(&a, &b, 0)
}

/// Joins strings with a separator between each two of them.
pub fn join_strings(parts: &[String], sep: &str) -> (r: String)
    ensures
        r@ == join(views(parts@), sep@),
{
    let mut out = String::new();
    let mut i: usize = 0;
    assert(views(parts@).take(0) =~= Seq::<Seq<char>>::empty());
    while i < parts.len()
        invariant
            i <= parts.len(),
            out@ == join(views(parts@).take(i as int), sep@),
        decreases parts.len() - i,
    {
        let ghost all = views(parts@);
        assert(all.take(i + 1).drop_last() =~= all.take(i as int));
        assert(all.take(i + 1).last() == parts@[i as int]@);
        if i > 0 {
            out.append(sep);
        } else {
            assert(out@ =~= Seq::<char>::empty());
        }
        out.append(parts[i].as_str());
        i = i + 1;
        assert(out@ =~= join(all.take(i as int), sep@));
    }
    assert(views(parts@).take(i as int) =~= views(parts@));
    out
}


/// The characters of an optional string.
pub open spec fn opt_view(s: Option<String>) -> Option<Seq<char>> {
    match s {
        Some(s) => Some(s@),
        None => None,
    }
}

/// A copy of an optional string.
pub fn opt_clone(s: &Option<String>) -> (r: Option<String>)
    ensures
        opt_view(r) == opt_view(*s),
        r is Some <==> s is Some,
{
    match s {
        Some(s) => Some(s.clone()),
        None => None,
    }
}

/// Copies of all strings.
pub fn clone_strings(v: &[String]) -> (r: Vec<String>)
    ensures
        views(r@) == views(v@),
{
    let mut out: Vec<String> = Vec::new();
    let mut i: usize = 0;
    while i < v.len()
        invariant
            i <= v.len(),
            out@.len() == i,
            forall|k: int| 0 <= k < i ==> (#[trigger] out@[k])@ == v@[k]@,
        decreases v.len() - i,
    {
        out.push(v[i].clone());
        i = i + 1;
    }
    assert(views(out@) =~= views(v@));
    out
}


/// An ASCII capital letter in lower case; any other character as it is.
pub open spec fn ascii_lower(c: char) -> char {
    if 'A' <= c && c <= 'Z' {
        (c as int + 32) as char
    } else {
        c
    }
}

/// Whether two texts differ at most in the case of ASCII letters.
pub open spec fn same_ignoring_ascii_case(a: Seq<char>, b: Seq<char>) -> bool {
    a.len() == b.len() && forall|i: int|
        0 <= i < a.len() ==> ascii_lower(#[trigger] a[i]) == ascii_lower(b[i])
}

fn lower(c: char) -> (r: char)
    ensures
        r == ascii_lower(c),
{
    if 'A' <= c && c <= 'Z' {
        let n: u8 = (c as u32) as u8;
        (n + 32) as char
    } else {
        c
    }
}

/// Whether two texts differ at most in the case of ASCII letters.
pub fn eq_ignore_ascii_case(a: &str, b: &str) -> (r: bool)
    ensures
        r == same_ignoring_ascii_case(a@, b@),
{
    let x = chars_of(a);
    let y = chars_of(b);
    if x.len() != y.len() {
        return false;
    }
    let mut i: usize = 0;
    while i < x.len()
        invariant
            i <= x.len(),
            x.len() == y.len(),
            x@ == a@,
            y@ == b@,
            forall|k: int| 0 <= k < i ==> ascii_lower(#[trigger] x@[k]) == ascii_lower(y@[k]),
        decreases x.len() - i,
    {
        if lower(x[i]) != lower(y[i]) {
            assert(ascii_lower(x@[i as int]) != ascii_lower(y@[i as int]));
            return false;
        }
        i = i + 1;
    }
    true
}

/// A text in double quotes, with escapes for what does not print.
pub uninterp spec fn quoted(s: Seq<char>) -> Seq<char>;

/// The `Debug` form of a string slice in std.
#[verifier::external_body]
pub(crate) fn quote(s: &str) -> (r: String)
    ensures
        r@ == quoted(s@),
{
    format!("{s:?}")
}

/// Decimal texts are written digit by digit: a single digit as its character, and behind the text of a
/// number any digit makes the text of ten times the number with the digit added.
pub proof fn decimals_grow_by_digits(n: nat, d: nat)
    requires
        d < 10,
    ensures
        dec(d).len() == 1 && dec(d)[0] as int == '0' as int + d,
        n > 0 ==> dec(10 * n + d) == dec(n) + dec(d),
        n > 0 ==> dec(n)[0] != '0',
        dec_int(n as int) == dec(n),
        n > 0 ==> dec_int(-n) == seq!['-'] + dec(n),
    decreases n,
{
    if n > 0 {
        assert((10 * n + d) / 10 == n && (10 * n + d) % 10 == d);
        assert(dec(10 * n + d) =~= dec(n) + dec(d));
        if n >= 10 {
            decimals_grow_by_digits(n / 10, n % 10);
            assert(dec(n)[0] == dec(n / 10)[0]);
        }
    }
}

/// The text of a number reads as that number up to the bound and as nothing above it, with or without
/// a plus sign, and no text with anything but digits behind that reads as a number.
pub proof fn numbers_read_up_to_their_bound(n: nat, max: nat, s: Seq<char>)
    ensures
        parse_bounded(dec(n), max) == if n <= max {
            Some(n)
        } else {
            None
        },
        parse_bounded(seq!['+'] + dec(n), max) == if n <= max {
            Some(n)
        } else {
            None
        },
        parse_bounded(s, max) is Some ==> s.len() > 0 && parse_bounded(s, max)->0 <= max && forall|
            i: int,
        |
            1 <= i < s.len() ==> '0' <= #[trigger] s[i] <= '9',
        parse_bounded(s, max) is Some ==> s[0] == '+' || '0' <= s[0] <= '9',
{
    dec_parses_back(n);
    lemma_dec_value(n);
    assert((seq!['+'] + dec(n)).skip(1) =~= dec(n));
    if let Some(k) = parse_bounded(s, max) {
        if s[0] == '+' {
            assert forall|i: int| 1 <= i < s.len() implies '0' <= #[trigger] s[i] <= '9' by {
                assert(is_digit(s.skip(1)[i - 1]));
            }
        } else {
            assert(is_digit(s[0]));
            assert forall|i: int| 1 <= i < s.len() implies '0' <= #[trigger] s[i] <= '9' by {
                assert(is_digit(s[i]));
            }
        }
    }
}

/// The piece behind the last separator is what stands behind it, where that holds none itself.
pub proof fn the_last_piece_stands_behind_the_last_separator(
    before: Seq<char>,
    sep: char,
    tail: Seq<char>,
)
    requires
        !tail.contains(sep),
    ensures
        split(before + seq![sep] + tail, sep).last() == tail,
        split(tail, sep) == seq![tail],
    decreases tail.len(),
{
    let s = before + seq![sep] + tail;
    if tail.len() == 0 {
        assert(s.last() == sep);
        assert(split(s, sep).last() =~= tail);
        assert(split(tail, sep) =~= seq![tail]);
    } else {
        let rest = tail.drop_last();
        assert(!rest.contains(sep)) by {
            if rest.contains(sep) {
                let k = choose|k: int| 0 <= k < rest.len() && rest[k] == sep;
                assert(tail[k] == sep);
            }
        }
        the_last_piece_stands_behind_the_last_separator(before, sep, rest);
        assert(s.drop_last() =~= before + seq![sep] + rest);
        assert(tail[tail.len() - 1] == tail.last());
        assert(tail.last() != sep);
        assert(rest.push(tail.last()) =~= tail);
        assert(split(tail, sep) =~= seq![tail]);
    }
}

/// Joining puts the separator between each two texts and nowhere else.
pub proof fn joins_put_the_separator_between(parts: Seq<Seq<char>>, last: Seq<char>, sep: Seq<char>)
    ensures
        join(Seq::empty(), sep) == Seq::<char>::empty(),
        join(seq![last], sep) == last,
        parts.len() > 0 ==> join(parts.push(last), sep) == join(parts, sep) + sep + last,
{
    assert(parts.push(last).drop_last() =~= parts);
}

/// Trimming takes white space off both ends and nothing else.
pub proof fn trimming_takes_white_space_off_the_ends(s: Seq<char>)
    ensures
        trim(s).len() > 0 ==> !is_space(trim(s)[0]) && !is_space(trim(s).last()),
        exists|lead: Seq<char>, trail: Seq<char>|
            {
                &&& s == #[trigger] (lead + trim(s) + trail)
                &&& forall|i: int| 0 <= i < lead.len() ==> is_space(#[trigger] lead[i])
                &&& forall|i: int| 0 <= i < trail.len() ==> is_space(#[trigger] trail[i])
            },
{
    let lead = lemma_trim_start(s);
    let core = trim_start(s);
    let trail = lemma_trim_end(core);
    assert(s =~= lead + trim(s) + trail);
    if trim(s).len() > 0 {
        assert(core[0] == trim(s)[0]);
    }
}

proof fn lemma_trim_start(s: Seq<char>) -> (lead: Seq<char>)
    ensures
        s == lead + trim_start(s),
        forall|i: int| 0 <= i < lead.len() ==> is_space(#[trigger] lead[i]),
        trim_start(s).len() > 0 ==> !is_space(trim_start(s)[0]),
    decreases s.len(),
{
    if s.len() > 0 && is_space(s[0]) {
        let rest = lemma_trim_start(s.skip(1));
        let lead = seq![s[0]] + rest;
        assert(s =~= seq![s[0]] + s.skip(1));
        assert(lead + trim_start(s) =~= seq![s[0]] + (rest + trim_start(s.skip(1))));
        lead
    } else {
        let lead = Seq::<char>::empty();
        assert(s =~= lead + trim_start(s));
        lead
    }
}

proof fn lemma_trim_end(s: Seq<char>) -> (trail: Seq<char>)
    ensures
        s == trim_end(s) + trail,
        forall|i: int| 0 <= i < trail.len() ==> is_space(#[trigger] trail[i]),
        trim_end(s).len() > 0 ==> !is_space(trim_end(s).last()),
    decreases s.len(),
{
    if s.len() > 0 && is_space(s.last()) {
        let rest = lemma_trim_end(s.drop_last());
        let trail = rest.push(s.last());
        assert(s =~= s.drop_last().push(s.last()));
        assert(trim_end(s) + trail =~= (trim_end(s.drop_last()) + rest).push(s.last()));
        trail
    } else {
        let trail = Seq::<char>::empty();
        assert(s =~= trim_end(s) + trail);
        trail
    }
}

/// The ASCII letters differ by their case alone, and no other character is taken for another.
pub proof fn ascii_case_is_ignored(upper: char, c: char)
    ensures
        'A' <= upper <= 'Z' ==> ascii_lower(upper) as int == upper as int + 32,
        !('A' <= c <= 'Z') ==> ascii_lower(c) == c,
        same_ignoring_ascii_case(seq![upper], seq![c]) ==> upper == c || ('A' <= upper <= 'Z'
            && c as int == upper as int + 32) || ('A' <= c <= 'Z' && upper as int == c as int + 32),
{
    if same_ignoring_ascii_case(seq![upper], seq![c]) {
        assert(ascii_lower(seq![upper][0]) == ascii_lower(seq![c][0]));
    }
}

/// Texts without the separator that are joined by it come apart again as they were.
pub proof fn joined_texts_split_back(parts: Seq<Seq<char>>, sep: char)
    requires
        parts.len() > 0,
        forall|i: int| 0 <= i < parts.len() ==> !(#[trigger] parts[i]).contains(sep),
    ensures
        split(join(parts, seq![sep]), sep) == parts,
    decreases parts.len(),
{
    let n = parts.len() - 1;
    assert(parts[n] == parts.last());
    if n == 0 {
        the_last_piece_stands_behind_the_last_separator(Seq::empty(), sep, parts[0]);
        assert(seq![parts[0]] =~= parts);
    } else {
        let rest = parts.drop_last();
        assert forall|i: int| 0 <= i < rest.len() implies !(#[trigger] rest[i]).contains(sep) by {
            assert(rest[i] == parts[i]);
        }
        joined_texts_split_back(rest, sep);
        lemma_split_behind(join(rest, seq![sep]), sep, parts.last());
        assert(rest.push(parts.last()) =~= parts);
    }
}

proof fn lemma_split_behind(before: Seq<char>, sep: char, tail: Seq<char>)
    requires
        !tail.contains(sep),
    ensures
        split(before + seq![sep] + tail, sep) == split(before, sep).push(tail),
    decreases tail.len(),
{
    let s = before + seq![sep] + tail;
    if tail.len() == 0 {
        assert(s.drop_last() =~= before);
        assert(tail =~= Seq::<char>::empty());
        assert(split(s, sep) =~= split(before, sep).push(tail));
    } else {
        let rest = tail.drop_last();
        assert(!rest.contains(sep)) by {
            if rest.contains(sep) {
                let k = choose|k: int| 0 <= k < rest.len() && rest[k] == sep;
                assert(tail[k] == sep);
            }
        }
        lemma_split_behind(before, sep, rest);
        assert(s.drop_last() =~= before + seq![sep] + rest);
        assert(tail[tail.len() - 1] == tail.last());
        assert(tail.last() != sep);
        assert(rest.push(tail.last()) =~= tail);
        let behind = split(before, sep).push(rest);
        assert(behind.drop_last() =~= split(before, sep));
        assert(split(s, sep) =~= split(before, sep).push(tail));
    }
}

/// A text stands in another where that is made of something before it, the text, and something
/// behind it; it begins another where nothing is before it.
pub proof fn texts_are_found_where_they_stand(s: Seq<char>, t: Seq<char>, before: Seq<char>, after: Seq<char>)
    ensures
        has_text(before + t + after, t),
        begins_with(t + after, t),
        has_text(s, t) ==> exists|i: int|
            0 <= i <= s.len() - t.len() && s == #[trigger] s.take(i) + t + s.skip(i + t.len()),
        begins_with(s, t) ==> s == t + s.skip(t.len() as int),
{
    let whole = before + t + after;
    let at = before.len() as int;
    assert(whole.subrange(at, at + t.len()) =~= t);
    assert(occurs_at(whole, t, at));
    assert((t + after).subrange(0, t.len() as int) =~= t);
    if has_text(s, t) {
        let i = choose|i: int| occurs_at(s, t, i);
        assert(s =~= s.take(i) + s.subrange(i, i + t.len()) + s.skip(i + t.len()));
    }
    if begins_with(s, t) {
        assert(s =~= s.subrange(0, t.len() as int) + s.skip(t.len() as int));
    }
}

/// White space are the blank, the five controls from the tab on, and the spaces of Unicode; no
/// other character below 128 is.
pub proof fn white_space_is_as_in_unicode(c: char)
    ensures
        (c as u32) < 128 ==> (is_space(c) <==> c == ' ' || c == '\t' || c == '\n' || c as u32 == 11
            || c as u32 == 12 || c == '\r'),
        c as u32 >= 128 ==> (is_space(c) <==> c as u32 == 0x85 || c as u32 == 0xA0 || c as u32
            == 0x1680 || 0x2000 <= c as u32 <= 0x200A || c as u32 == 0x2028 || c as u32 == 0x2029
            || c as u32 == 0x202F || c as u32 == 0x205F || c as u32 == 0x3000),
{
}

} // verus!
