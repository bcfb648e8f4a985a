//! Text as sequences of characters: the few string operations the rest of
//! the library is written with, each with an exact contract.

use vstd::prelude::*;

verus! {

/// `String::push` appends one character.
pub assume_specification[ String::push ](s: &mut String, c: char)
    ensures
        final(s)@ == old(s)@.push(c),
;

// ------------------------------------------------------------ conversions

/// The characters of `s`, in order.
pub fn chars_of(s: &str) -> (r: Vec<char>)
    ensures
        r@ == s@,
{
    let mut out: Vec<char> = Vec::new();
    for c in it: s.chars()
        invariant
            out@ == it.seq().take(it.index() as int),
            it.seq() == s@,
    {
        out.push(c);
        assert(s@.take(it.index() + 1) == s@.take(it.index() as int).push(c));
    }
    assert(s@.take(s@.len() as int) == s@);
    out
}

/// The text made of the characters `v[from..to]`.
pub fn text_of(v: &Vec<char>, from: usize, to: usize) -> (r: String)
    requires
        from <= to <= v@.len(),
    ensures
        r@ == v@.subrange(from as int, to as int),
{
    let mut out = String::new();
    let mut i: usize = from;
    while i < to
        invariant
            from <= i <= to <= v@.len(),
            out@ == v@.subrange(from as int, i as int),
        decreases to - i,
    {
        out.push(v[i]);
        assert(v@.subrange(from as int, i + 1) == v@.subrange(from as int, i as int).push(v@[i as int]));
        i = i + 1;
    }
    out
}

/// Whether two texts hold the same characters.
pub fn same_text(a: &str, b: &str) -> (r: bool)
    ensures
        r == (a@ == b@),
{
    let x = chars_of(a);
    let y = chars_of(b);
    if x.len() != y.len() {
        return false;
    }
    let mut i: usize = 0;
    while i < x.len()
        invariant
            i <= x@.len(),
            x@.len() == y@.len(),
            x@ == a@,
            y@ == b@,
            forall|j: int| 0 <= j < i ==> x@[j] == y@[j],
        decreases x.len() - i,
    {
        if x[i] != y[i] {
            return false;
        }
        i = i + 1;
    }
    assert(x@ =~= y@);
    true
}

/// The characters of `a` followed by those of `b`.
pub fn joined(a: &str, b: &str) -> (r: String)
    ensures
        r@ == a@ + b@,
{
    let mut out = a.to_owned();
    out.append(b);
    out
}

/// A copy of an optional text.
pub fn copy_opt(o: &Option<String>) -> (r: Option<String>)
    ensures
        r == *o,
{
    match o {
        Some(s) => Some(s.clone()),
        None => None,
    }
}

/// The text inside, or the empty text.
pub open spec fn or_empty(o: Option<String>) -> Seq<char> {
    match o {
        Some(s) => s@,
        None => Seq::empty(),
    }
}

/// A copy of the text inside, or the empty text.
pub fn text_or_empty(o: &Option<String>) -> (r: String)
    ensures
        r@ == or_empty(*o),
{
    match o {
        Some(s) => s.clone(),
        None => String::new(),
    }
}

/// The characters of each text of a list.
pub open spec fn texts(v: Seq<String>) -> Seq<Seq<char>> {
    v.map_values(|s: String| s@)
}

/// A copy of a list of texts.
pub fn copy_list(v: &Vec<String>) -> (r: Vec<String>)
    ensures
        r@ == v@,
{
    let mut out: Vec<String> = Vec::new();
    let mut i: usize = 0;
    while i < v.len()
        invariant
            i <= v@.len(),
            out@ == v@.take(i as int),
        decreases v.len() - i,
    {
        out.push(v[i].clone());
        assert(v@.take(i + 1) == v@.take(i as int).push(v@[i as int]));
        i = i + 1;
    }
    assert(v@.take(v@.len() as int) == v@);
    out
}

/// The list inside, or the empty list.
pub open spec fn list_or_empty(o: Option<Vec<String>>) -> Seq<String> {
    match o {
        Some(v) => v@,
        None => Seq::empty(),
    }
}

/// A copy of the list inside, or the empty list.
pub fn copy_list_or_empty(o: &Option<Vec<String>>) -> (r: Vec<String>)
    ensures
        r@ == list_or_empty(*o),
{
    match o {
        Some(v) => copy_list(v),
        None => Vec::new(),
    }
}

// ------------------------------------------------------------ joining

/// The parts one after the other with `sep` between neighbours.
pub open spec fn join(parts: Seq<Seq<char>>, sep: Seq<char>) -> Seq<char>
    decreases parts.len(),
{
    if parts.len() == 0 {
        Seq::empty()
    } else if parts.len() == 1 {
        parts[0]
    } else {
        join(parts.drop_last(), sep) + sep + parts.last()
    }
}

/// Joins a list of texts with `sep` between neighbours.
pub fn join_texts(parts: &Vec<String>, sep: &str) -> (r: String)
    ensures
        r@ == join(texts(parts@), sep@),
{
    let mut out = String::new();
    let mut i: usize = 0;
    let ghost all = texts(parts@);
    while i < parts.len()
        invariant
            i <= parts@.len(),
            all == texts(parts@),
            out@ == join(all.take(i as int), sep@),
        decreases parts.len() - i,
    {
        assert(all.take(i + 1).drop_last() == all.take(i as int));
        assert(all.take(i + 1).last() == parts@[i as int]@);
        if i > 0 {
            out.append(sep);
            out.append(parts[i].as_str());
        } else {
            out.append(parts[i].as_str());
            assert(out@ == parts@[0]@);
        }
        i = i + 1;
    }
    assert(all.take(parts@.len() as int) == all);
    out
}

// ------------------------------------------------------------ numbers

/// The character of a decimal digit.
pub open spec fn digit_char(d: int) -> char {
    (48 + d) as char
}

/// The decimal digits of `n`, without leading zeros.
pub open spec fn decimal(n: nat) -> Seq<char>
    decreases n,
{
    if n < 10 {
        seq![digit_char(n as int)]
    } else {
        decimal(n / 10).push(digit_char((n % 10) as int))
    }
}

/// The decimal form of an integer, with a leading `-` below zero.
pub open spec fn signed_decimal(n: int) -> Seq<char> {
    if n < 0 {
        seq!['-'] + decimal((-n) as nat)
    } else {
        decimal(n as nat)
    }
}

/// The decimal form of an integer, filled up with zeros to two characters.
pub open spec fn two_digits(n: int) -> Seq<char> {
    if 0 <= n < 10 {
        seq!['0'] + signed_decimal(n)
    } else {
        signed_decimal(n)
    }
}

/// Ten to the power `k`.
pub open spec fn ten_to(k: nat) -> nat
    decreases k,
{
    if k == 0 {
        1
    } else {
        10 * ten_to((k - 1) as nat)
    }
}

/// A number below ten to the power `k` has at most `k` digits.
pub proof fn lemma_decimal_len(n: nat, k: nat)
    requires
        k >= 1,
        n < ten_to(k),
    ensures
        1 <= decimal(n).len() <= k,
    decreases k,
{
    reveal_with_fuel(ten_to, 2);
    if n >= 10 {
        lemma_decimal_len(n / 10, (k - 1) as nat);
    }
}

/// A 32-bit number has at most ten digits.
pub proof fn lemma_u32_decimal_len(n: u32)
    ensures
        1 <= decimal(n as nat).len() <= 10,
{
    reveal_with_fuel(ten_to, 11);
    lemma_decimal_len(n as nat, 10);
}

/// Appends the decimal digits of `n`.
pub fn push_decimal(out: &mut String, n: u64)
    ensures
        final(out)@ == old(out)@ + decimal(n as nat),
    decreases n,
{
    if n >= 10 {
        push_decimal(out, n / 10);
    }
    let d: u8 = (n % 10) as u8;
    out.push((48 + d) as char);
    assert(out@ =~= old(out)@ + decimal(n as nat));
}

/// The decimal form of an unsigned number.
pub fn decimal_of(n: u64) -> (r: String)
    ensures
        r@ == decimal(n as nat),
{
    let mut out = String::new();
    push_decimal(&mut out, n);
    assert(out@ =~= decimal(n as nat));
    out
}

/// The decimal form of a signed number.
pub fn signed_decimal_of(n: i64) -> (r: String)
    ensures
        r@ == signed_decimal(n as int),
{
    let mut out = String::new();
    if n < 0 {
        out.push('-');
        let m: u64 = (-(n as i128)) as u64;
        push_decimal(&mut out, m);
        assert(out@ =~= signed_decimal(n as int));
    } else {
        push_decimal(&mut out, n as u64);
        assert(out@ =~= signed_decimal(n as int));
    }
    out
}

/// The decimal form of a number, at least two characters wide.
pub fn two_digits_of(n: i64) -> (r: String)
    ensures
        r@ == two_digits(n as int),
{
    let mut out = String::new();
    if 0 <= n && n < 10 {
        out.push('0');
    }
    let tail = signed_decimal_of(n);
    out.append(tail.as_str());
    assert(out@ =~= two_digits(n as int));
    out
}

// ------------------------------------------------------------ parts of a text

/// Whether `s` starts with `p`.
pub open spec fn starts(s: Seq<char>, p: Seq<char>) -> bool {
    p.len() <= s.len() && s.take(p.len() as int) == p
}

/// Whether `s` starts with `p`.
pub fn starts_with(s: &str, p: &str) -> (r: bool)
    ensures
        r == starts(s@, p@),
{
    let x = chars_of(s);
    let y = chars_of(p);
    assert(s@.skip(0) =~= s@);
    matches_at(&x, 0, &y)
}

/// Whether `y` stands in `x` at `at`.
pub(crate) fn matches_at(x: &Vec<char>, at: usize, y: &Vec<char>) -> (r: bool)
    requires
        at <= x@.len(),
    ensures
        r == starts(x@.skip(at as int), y@),
{
    if y.len() > x.len() - at {
        return false;
    }
    let ghost rest = x@.skip(at as int);
    let n: usize = y.len();
    let total: usize = x.len();
    let mut i: usize = 0;
    while i < n
        invariant
            i <= n,
            n == y@.len(),
            total == x@.len(),
            at + n <= total,
            rest == x@.skip(at as int),
            forall|j: int| 0 <= j < i ==> rest[j] == y@[j],
        decreases n - i,
    {
        if x[at + i] != y[i] {
            assert(rest.take(n as int)[i as int] != y@[i as int]);
            return false;
        }
        i = i + 1;
    }
    assert(rest.take(n as int) =~= y@);
    true
}

/// What follows the prefix `p`, if `s` starts with it.
pub open spec fn stripped(s: Seq<char>, p: Seq<char>) -> Option<Seq<char>> {
    if starts(s, p) {
        Some(s.skip(p.len() as int))
    } else {
        None
    }
}

/// The characters of an optional text.
pub open spec fn opt_view(o: Option<String>) -> Option<Seq<char>> {
    match o {
        Some(s) => Some(s@),
        None => None,
    }
}

/// What follows the prefix `p`, if `s` starts with it.
pub fn strip_prefix(s: &str, p: &str) -> (r: Option<String>)
    ensures
        opt_view(r) == stripped(s@, p@),
{
    let x = chars_of(s);
    let y = chars_of(p);
    if matches_at(&x, 0, &y) {
        assert(s@.skip(0) =~= s@);
        let r = text_of(&x, y.len(), x.len());
        assert(r@ =~= s@.skip(p@.len() as int));
        Some(r)
    } else {
        assert(s@.skip(0) =~= s@);
        None
    }
}

/// Where `c` first stands in `s`; the length of `s` if it does not.
pub open spec fn first_index(s: Seq<char>, c: char) -> nat
    decreases s.len(),
{
    if s.len() == 0 || s[0] == c {
        0
    } else {
        1 + first_index(s.skip(1), c)
    }
}

/// The first place of a character is in range, holds it, and nothing before
/// it does.
pub proof fn lemma_first_index(s: Seq<char>, c: char)
    ensures
        first_index(s, c) <= s.len(),
        first_index(s, c) < s.len() ==> s[first_index(s, c) as int] == c,
        forall|j: int| 0 <= j < first_index(s, c) ==> s[j] != c,
    decreases s.len(),
{
    if s.len() == 0 || s[0] == c {
    } else {
        let t = s.skip(1);
        lemma_first_index(t, c);
        assert forall|j: int| 0 <= j < first_index(s, c) implies s[j] != c by {
            if j > 0 {
                assert(t[j - 1] == s[j]);
            }
        }
    }
}

/// A place that holds `c` with none before it is the first one.
pub proof fn lemma_first_index_is(s: Seq<char>, c: char, i: int)
    requires
        0 <= i <= s.len(),
        i < s.len() ==> s[i] == c,
        forall|j: int| 0 <= j < i ==> s[j] != c,
    ensures
        first_index(s, c) == i,
{
    lemma_first_index(s, c);
    let k = first_index(s, c) as int;
    if k < i {
        assert(s[k] != c);
    } else if i < k {
        assert(s[i] != c);
    }
}

/// Where `c` first stands in `x[from..]`, counted from the start of `x`; the
/// length of `x` if it does not.
fn find_from(x: &Vec<char>, from: usize, c: char) -> (r: usize)
    requires
        from <= x@.len(),
    ensures
        from <= r <= x@.len(),
        r - from == first_index(x@.skip(from as int), c),
{
    let ghost rest = x@.skip(from as int);
    let mut i: usize = from;
    while i < x.len() && x[i] != c
        invariant
            from <= i <= x@.len(),
            rest == x@.skip(from as int),
            forall|j: int| 0 <= j < i - from ==> rest[j] != c,
        decreases x@.len() - i,
    {
        i = i + 1;
    }
    proof {
        lemma_first_index_is(rest, c, i - from);
    }
    i
}

/// Where `c` first stands in `x`; the length of `x` if it does not.
pub fn index_of(x: &Vec<char>, c: char) -> (r: usize)
    ensures
        r == first_index(x@, c),
        r <= x@.len(),
{
    assert(x@.skip(0) =~= x@);
    find_from(x, 0, c)
}

/// What stands before and after the first `c`, if `s` holds it.
pub open spec fn cut(s: Seq<char>, c: char) -> Option<(Seq<char>, Seq<char>)> {
    let i = first_index(s, c) as int;
    if i < s.len() {
        Some((s.take(i), s.skip(i + 1)))
    } else {
        None
    }
}

/// What stands before and after the first `c`, if `s` holds it.
pub fn split_once(s: &str, c: char) -> (r: Option<(String, String)>)
    ensures
        match r {
            Some(p) => cut(s@, c) == Some((p.0@, p.1@)),
            None => cut(s@, c) is None,
        },
{
    let x = chars_of(s);
    let i: usize = find_from(&x, 0, c);
    assert(s@.skip(0) =~= s@);
    if i < x.len() {
        let a = text_of(&x, 0, i);
        let b = text_of(&x, i + 1, x.len());
        assert(a@ =~= s@.take(i as int));
        assert(b@ =~= s@.skip(i + 1));
        Some((a, b))
    } else {
        None
    }
}

/// The pieces of `s` between the occurrences of `c`: one more than there are
/// occurrences.
pub open spec fn pieces(s: Seq<char>, c: char) -> Seq<Seq<char>>
    decreases s.len(),
{
    match cut(s, c) {
        Some((a, b)) => if b.len() < s.len() {
            seq![a] + pieces(b, c)
        } else {
            seq![s]
        },
        None => seq![s],
    }
}

/// The pieces of `s` between the occurrences of `c`.
pub fn split_on(s: &str, c: char) -> (r: Vec<String>)
    ensures
        texts(r@) == pieces(s@, c),
        r@.len() > 0,
{
    let x = chars_of(s);
    let mut out: Vec<String> = Vec::new();
    let mut from: usize = 0;
    let mut i: usize = find_from(&x, 0, c);
    assert(s@.skip(0) =~= s@);
    assert(texts(out@) + pieces(s@, c) =~= pieces(s@, c));
    while i < x.len()
        invariant
            x@ == s@,
            from <= i <= x@.len(),
            i - from == first_index(s@.skip(from as int), c),
            texts(out@) + pieces(s@.skip(from as int), c) == pieces(s@, c),
        decreases x@.len() - i,
    {
        let ghost rest = s@.skip(from as int);
        let ghost before = texts(out@);
        let part = text_of(&x, from, i);
        proof {
            lemma_first_index(rest, c);
            assert(part@ =~= rest.take(i - from));
            assert(rest.skip(i - from + 1) =~= s@.skip(i + 1));
        }
        out.push(part);
        assert(texts(out@) =~= before + seq![rest.take(i - from)]);
        assert(texts(out@) + pieces(s@.skip(i + 1), c) =~= before + pieces(rest, c));
        from = i + 1;
        i = find_from(&x, from, c);
    }
    let ghost before = texts(out@);
    let last = text_of(&x, from, x.len());
    assert(last@ =~= s@.skip(from as int));
    out.push(last);
    assert(texts(out@) =~= before + seq![s@.skip(from as int)]);
    out
}

// ------------------------------------------------------------ ASCII case

/// The lower-case form of an ASCII letter; any other character unchanged.
pub open spec fn lower_char(c: char) -> char {
    if 'A' <= c && c <= 'Z' {
        (c as u32 + 32) as u8 as char
    } else {
        c
    }
}

/// The text with its ASCII letters in lower case.
pub open spec fn lowered(s: Seq<char>) -> Seq<char> {
    s.map_values(|c: char| lower_char(c))
}

/// The lower-case form of an ASCII letter; any other character unchanged.
pub fn lower_ascii_char(c: char) -> (r: char)
    ensures
        r == lower_char(c),
{
    if 'A' <= c && c <= 'Z' {
        (c as u32 + 32) as u8 as char
    } else {
        c
    }
}

/// The text with its ASCII letters in lower case.
pub fn lower_ascii(s: &str) -> (r: String)
    ensures
        r@ == lowered(s@),
{
    let x = chars_of(s);
    let mut out = String::new();
    let mut i: usize = 0;
    while i < x.len()
        invariant
            i <= x@.len(),
            x@ == s@,
            out@ == lowered(s@).take(i as int),
        decreases x@.len() - i,
    {
        out.push(lower_ascii_char(x[i]));
        assert(lowered(s@).take(i + 1) =~= lowered(s@).take(i as int).push(lower_char(s@[i as int])));
        i = i + 1;
    }
    assert(lowered(s@).take(s@.len() as int) =~= lowered(s@));
    out
}

/// The upper-case form of an ASCII letter; any other character unchanged.
pub open spec fn upper_char(c: char) -> char {
    if 'a' <= c && c <= 'z' {
        (c as u32 - 32) as u8 as char
    } else {
        c
    }
}

/// The text with its ASCII letters in upper case.
pub open spec fn uppered(s: Seq<char>) -> Seq<char> {
    s.map_values(|c: char| upper_char(c))
}

/// The text with its ASCII letters in upper case.
pub fn upper_ascii(s: &str) -> (r: String)
    ensures
        r@ == uppered(s@),
{
    let x = chars_of(s);
    let mut out = String::new();
    let mut i: usize = 0;
    while i < x.len()
        invariant
            i <= x@.len(),
            x@ == s@,
            out@ == uppered(s@).take(i as int),
        decreases x@.len() - i,
    {
        let c = x[i];
        out.push(
            if 'a' <= c && c <= 'z' {
                (c as u32 - 32) as u8 as char
            } else {
                c
            },
        );
        assert(uppered(s@).take(i + 1) =~= uppered(s@).take(i as int).push(upper_char(s@[i as int])));
        i = i + 1;
    }
    assert(uppered(s@).take(s@.len() as int) =~= uppered(s@));
    out
}

/// Whether two texts differ at most in the case of ASCII letters.
pub fn same_ignoring_case(a: &str, b: &str) -> (r: bool)
    ensures
        r == (lowered(a@) == lowered(b@)),
{
    same_text(lower_ascii(a).as_str(), lower_ascii(b).as_str())
}

/// Whether a text holds ASCII characters only.
pub open spec fn is_ascii_text(s: Seq<char>) -> bool {
    forall|i: int| 0 <= i < s.len() ==> (#[trigger] s[i] as u32) < 128
}

/// What `str::to_uppercase` makes of a text.
pub uninterp spec fn unicode_upper(s: Seq<char>) -> Seq<char>;

/// `str::to_uppercase` turns every character into its upper-case form as
/// Unicode has it; of ASCII characters that changes the letters only.
#[verifier::external_body]
pub(crate) fn to_upper(s: &str) -> (r: String)
    ensures
        r@ == unicode_upper(s@),
        is_ascii_text(s@) ==> r@ == uppered(s@),
{
    s.to_uppercase()
}

/// A text in upper case: letter by letter where it is ASCII, otherwise as
/// Unicode has it.
pub open spec fn upper_text(s: Seq<char>) -> Seq<char> {
    if is_ascii_text(s) {
        uppered(s)
    } else {
        unicode_upper(s)
    }
}

/// What `str::to_lowercase` makes of a text.
pub uninterp spec fn unicode_lower(s: Seq<char>) -> Seq<char>;

/// `str::to_lowercase` turns every character into its lower-case form as
/// Unicode has it; of ASCII characters that changes the letters only.
#[verifier::external_body]
pub(crate) fn to_lower(s: &str) -> (r: String)
    ensures
        r@ == unicode_lower(s@),
        is_ascii_text(s@) ==> r@ == lowered(s@),
{
    s.to_lowercase()
}

/// A text in lower case: letter by letter where it is ASCII, otherwise as
/// Unicode has it.
pub open spec fn lower_text(s: Seq<char>) -> Seq<char> {
    if is_ascii_text(s) {
        lowered(s)
    } else {
        unicode_lower(s)
    }
}

/// Putting an ASCII text into lower case and then into upper case is putting it
/// into upper case, and the text in between is ASCII.
pub proof fn lemma_upper_of_lower(s: Seq<char>)
    requires
        is_ascii_text(s),
    ensures
        is_ascii_text(lowered(s)),
        uppered(lowered(s)) == uppered(s),
{
    assert forall|i: int| 0 <= i < s.len() implies (#[trigger] lowered(s)[i] as u32) < 128 by {
        assert((s[i] as u32) < 128);
    }
    assert forall|i: int| 0 <= i < s.len() implies uppered(lowered(s))[i] == #[trigger] uppered(
        s,
    )[i] by {
        let c = s[i];
        assert(upper_char(lower_char(c)) == upper_char(c));
    }
    assert(uppered(lowered(s)) =~= uppered(s));
}

// ------------------------------------------------------------ reading numbers

/// Whether a character is a decimal digit.
pub open spec fn is_digit(c: char) -> bool {
    '0' <= c && c <= '9'
}

/// The number that decimal digits stand for.
pub open spec fn digits_value(s: Seq<char>) -> nat
    decreases s.len(),
{
    if s.len() == 0 {
        0
    } else {
        10 * digits_value(s.drop_last()) + (s.last() as u32 - 48) as nat
    }
}

/// Whether a text is made of one or more decimal digits.
pub open spec fn is_digits(s: Seq<char>) -> bool {
    s.len() > 0 && forall|i: int| 0 <= i < s.len() ==> is_digit(#[trigger] s[i])
}

/// The digits of a number that may have a plus sign.
pub open spec fn unsigned_part(s: Seq<char>) -> Seq<char> {
    if s.len() > 0 && s[0] == '+' {
        s.skip(1)
    } else {
        s
    }
}

/// The number that a text stands for, if it is one of at most `max`.
pub open spec fn read_number(s: Seq<char>, max: nat) -> Option<nat> {
    let d = unsigned_part(s);
    if is_digits(d) && digits_value(d) <= max {
        Some(digits_value(d))
    } else {
        None
    }
}

/// More digits never make a number smaller.
proof fn lemma_digits_value_grows(s: Seq<char>, n: int)
    requires
        0 <= n <= s.len(),
    ensures
        digits_value(s.take(n)) <= digits_value(s),
    decreases s.len() - n,
{
    if n == s.len() {
        assert(s.take(n) =~= s);
    } else {
        lemma_digits_value_grows(s, n + 1);
        assert(s.take(n + 1).drop_last() =~= s.take(n));
    }
}

/// The number that a text stands for, if it is one of at most `max`.
pub fn parse_number(s: &str, max: u32) -> (r: Option<u32>)
    ensures
        match r {
            Some(n) => read_number(s@, max as nat) == Some(n as nat),
            None => read_number(s@, max as nat) is None,
        },
{
    let x = chars_of(s);
    let from: usize = if x.len() > 0 && x[0] == '+' {
        1
    } else {
        0
    };
    let ghost d = unsigned_part(s@);
    assert(d =~= x@.skip(from as int));
    if from == x.len() {
        return None;
    }
    let mut value: u64 = 0;
    let mut i: usize = from;
    assert(d.take(0) =~= Seq::empty());
    while i < x.len()
        invariant
            from <= i <= x@.len(),
            d == x@.skip(from as int),
            d == unsigned_part(s@),
            value <= max,
            value == digits_value(d.take(i - from)),
            forall|j: int| 0 <= j < i - from ==> is_digit(#[trigger] d[j]),
        decreases x@.len() - i,
    {
        let c = x[i];
        assert(d[i - from] == c);
        if !('0' <= c && c <= '9') {
            return None;
        }
        assert(d.take(i - from + 1).drop_last() =~= d.take(i - from));
        value = value * 10 + (c as u32 - 48) as u64;
        i = i + 1;
        if value > max as u64 {
            proof {
                lemma_digits_value_grows(d, i - from);
            }
            return None;
        }
    }
    assert(d.take(i - from) =~= d);
    Some(value as u32)
}

// ------------------------------------------------------------ division towards zero

/// The quotient of a signed division, rounded towards zero.
pub open spec fn quot(a: int, b: int) -> int {
    if a >= 0 {
        a / b
    } else {
        -((-a) / b)
    }
}

/// The remainder of a signed division, with the sign of the dividend.
pub open spec fn rem(a: int, b: int) -> int {
    a - b * quot(a, b)
}

/// Divides towards zero.
pub fn divide(a: i64, b: u32) -> (r: i64)
    requires
        b >= 2,
    ensures
        r == quot(a as int, b as int),
{
    if a >= 0 {
        let q: u64 = a as u64 / b as u64;
        assert(q <= a) by (nonlinear_arith)
            requires
                q == a as int / b as int,
                a >= 0,
                b >= 2,
        ;
        q as i64
    } else {
        let m: u64 = (-(a as i128)) as u64;
        let q: u64 = m / b as u64;
        assert(q <= 0x4000_0000_0000_0000) by (nonlinear_arith)
            requires
                q == m as int / b as int,
                m <= 0x8000_0000_0000_0000,
                b >= 2,
        ;
        -(q as i64)
    }
}

/// The remainder of dividing towards zero.
pub fn remainder(a: i64, b: u32) -> (r: i64)
    requires
        b >= 2,
    ensures
        r == rem(a as int, b as int),
        -b < r < b,
{
    let q: i64 = divide(a, b);
    assert(-b < a - b * q < b) by {
        if a >= 0 {
            vstd::arithmetic::div_mod::lemma_fundamental_div_mod(a as int, b as int);
            vstd::arithmetic::div_mod::lemma_mod_bound(a as int, b as int);
        } else {
            vstd::arithmetic::div_mod::lemma_fundamental_div_mod(-a as int, b as int);
            vstd::arithmetic::div_mod::lemma_mod_bound(-a as int, b as int);
            let p = (-a) as int / b as int;
            assert(b * (-p) == -(b * p)) by (nonlinear_arith);
        }
    }
    (a as i128 - (b as i128) * (q as i128)) as i64
}

// ------------------------------------------------------------ searching

/// Where `p` first stands in `s`.
pub open spec fn find(s: Seq<char>, p: Seq<char>) -> Option<nat>
    decreases s.len(),
{
    if starts(s, p) {
        Some(0)
    } else if s.len() == 0 {
        None
    } else {
        match find(s.skip(1), p) {
            Some(i) => Some(i + 1),
            None => None,
        }
    }
}

/// Whether `p` stands somewhere in `s`.
pub open spec fn holds(s: Seq<char>, p: Seq<char>) -> bool {
    find(s, p) is Some
}

/// Where `p` first stands in `x[from..]`, counted from the start of `x`.
pub fn find_in(x: &Vec<char>, from: usize, p: &Vec<char>) -> (r: Option<usize>)
    requires
        from <= x@.len(),
    ensures
        match r {
            Some(i) => find(x@.skip(from as int), p@) == Some((i - from) as nat) && from <= i && i + p@.len()
                <= x@.len(),
            None => find(x@.skip(from as int), p@) is None,
        },
{
    let mut i: usize = from;
    let ghost rest = x@.skip(from as int);
    assert(rest.skip(0) =~= rest);
    loop
        invariant
            from <= i <= x@.len(),
            rest == x@.skip(from as int),
            find(rest, p@) == (match find(rest.skip(i - from), p@) {
                Some(k) => Some((k + (i - from)) as nat),
                None => None,
            }),
        decreases x@.len() - i,
    {
        assert(rest.skip(i - from) =~= x@.skip(i as int));
        if matches_at(x, i, p) {
            return Some(i);
        }
        if i == x.len() {
            return None;
        }
        assert(rest.skip(i - from).skip(1) =~= rest.skip(i + 1 - from));
        i = i + 1;
    }
}

/// Whether `p` stands somewhere in `s`.
pub fn contains(s: &str, p: &str) -> (r: bool)
    ensures
        r == holds(s@, p@),
{
    let x = chars_of(s);
    let y = chars_of(p);
    assert(s@.skip(0) =~= s@);
    find_in(&x, 0, &y).is_some()
}

/// Whether a character is white space, as Unicode has it.
pub open spec fn is_space(c: char) -> bool {
    let n = c as u32;
    ||| 0x09 <= n <= 0x0d
    ||| n == 0x20
    ||| n == 0x85
    ||| n == 0xa0
    ||| n == 0x1680
    ||| 0x2000 <= n <= 0x200a
    ||| n == 0x2028
    ||| n == 0x2029
    ||| n == 0x202f
    ||| n == 0x205f
    ||| n == 0x3000
}

/// Whether a character is white space, as Unicode has it.
pub fn is_whitespace(c: char) -> (r: bool)
    ensures
        r == is_space(c),
{
    let n: u32 = c as u32;
    (0x09 <= n && n <= 0x0d) || n == 0x20 || n == 0x85 || n == 0xa0 || n == 0x1680 || (0x2000 <= n && n
        <= 0x200a) || n == 0x2028 || n == 0x2029 || n == 0x202f || n == 0x205f || n == 0x3000
}

// ------------------------------------------------------------ laws

/// The decimal form of a number is made of digits, stands for that number, and
/// has no zero in front unless it is the number zero.
pub proof fn law_decimal_reads_back(n: nat)
    ensures
        decimal(n).len() > 0,
        forall|i: int| 0 <= i < decimal(n).len() ==> '0' <= #[trigger] decimal(n)[i] && decimal(n)[i] <= '9',
        digits_value(decimal(n)) == n,
        n > 0 ==> decimal(n)[0] != '0',
    decreases n,
{
    if n < 10 {
        let s = decimal(n);
        assert(s.drop_last() =~= Seq::empty());
        assert(digits_value(Seq::<char>::empty()) == 0);
        assert(s.last() as u32 == 48 + n);
    } else {
        law_decimal_reads_back(n / 10);
        let s = decimal(n);
        assert(s.drop_last() =~= decimal(n / 10));
        assert(s.last() as u32 == 48 + n % 10);
        assert forall|i: int| 0 <= i < s.len() implies '0' <= #[trigger] s[i] && s[i] <= '9' by {
            if i < decimal(n / 10).len() {
                assert(s[i] == decimal(n / 10)[i]);
            }
        }
        assert(s[0] == decimal(n / 10)[0]);
    }
}

/// Different numbers have different decimal forms.
pub proof fn law_decimals_differ(a: int, b: int)
    requires
        signed_decimal(a) == signed_decimal(b),
    ensures
        a == b,
{
    law_decimal_reads_back(if a < 0 { (-a) as nat } else { a as nat });
    law_decimal_reads_back(if b < 0 { (-b) as nat } else { b as nat });
    let x = signed_decimal(a);
    let y = signed_decimal(b);
    if a < 0 {
        assert(x[0] == '-');
        assert(x.skip(1) =~= decimal((-a) as nat));
    }
    if b < 0 {
        assert(y[0] == '-');
        assert(y.skip(1) =~= decimal((-b) as nat));
    }
}

/// A number below zero is a minus sign and the number without its sign; any
/// other is its digits.
pub proof fn law_sign_stands_in_front(n: nat)
    ensures
        signed_decimal(n as int) == decimal(n),
        n > 0 ==> signed_decimal(-(n as int)) == seq!['-'] + decimal(n),
{
}

/// A number below a hundred takes exactly two digits, tens before ones; a larger
/// one is its decimal form.
pub proof fn law_two_digits(n: nat)
    ensures
        n < 100 ==> two_digits(n as int) == seq![(48 + n / 10) as char, (48 + n % 10) as char],
        n >= 10 ==> two_digits(n as int) == decimal(n),
        digits_value(two_digits(n as int)) == n,
{
    law_decimal_reads_back(n);
    let t = two_digits(n as int);
    if n < 10 {
        assert(t =~= seq!['0', (48 + n) as char]);
        assert(t.drop_last() =~= seq!['0']);
        assert(t.drop_last().drop_last() =~= Seq::empty());
        assert(digits_value(Seq::<char>::empty()) == 0);
        assert(seq!['0'].drop_last() =~= Seq::empty());
        assert(digits_value(seq!['0']) == 0);
        assert(t.last() as u32 == 48 + n);
    } else if n < 100 {
        assert(decimal(n / 10) =~= seq![(48 + n / 10) as char]);
        assert(t =~= seq![(48 + n / 10) as char, (48 + n % 10) as char]);
    }
}

/// Joining nothing gives nothing, joining one part gives that part, and joining
/// two lists puts the separator once between what each of them gives.
pub proof fn law_join(a: Seq<Seq<char>>, b: Seq<Seq<char>>, x: Seq<char>, sep: Seq<char>)
    ensures
        join(Seq::empty(), sep) == Seq::<char>::empty(),
        join(seq![x], sep) == x,
        a.len() > 0 && b.len() > 0 ==> join(a + b, sep) == join(a, sep) + sep + join(b, sep),
    decreases b.len(),
{
    if a.len() > 0 && b.len() > 0 {
        assert((a + b).drop_last() =~= a + b.drop_last());
        assert((a + b).last() == b.last());
        if b.len() == 1 {
            assert(a + b.drop_last() =~= a);
            assert(b.last() == b[0]);
        } else {
            law_join(a, b.drop_last(), x, sep);
            assert(join(a + b, sep) =~= join(a, sep) + sep + join(b, sep));
        }
    }
}

/// Every part stands in the joined text, with what comes before it in front of
/// it and what comes after it behind it.
pub proof fn law_join_holds_each_part(parts: Seq<Seq<char>>, sep: Seq<char>, i: int)
    requires
        0 <= i < parts.len(),
    ensures
        ({
            let front = if i == 0 {
                Seq::empty()
            } else {
                join(parts.take(i), sep) + sep
            };
            let back = if i + 1 == parts.len() {
                Seq::empty()
            } else {
                sep + join(parts.skip(i + 1), sep)
            };
            join(parts, sep) == front + parts[i] + back
        }),
{
    let x = parts[i];
    let before = parts.take(i);
    let after = parts.skip(i + 1);
    assert(parts =~= before + (seq![x] + after));
    law_join(before, seq![x] + after, x, sep);
    law_join(seq![x], after, x, sep);
    if i == 0 {
        assert(parts =~= seq![x] + after);
    }
    if i + 1 == parts.len() {
        assert(seq![x] + after =~= seq![x]);
    }
    let front = if i == 0 {
        Seq::empty()
    } else {
        join(parts.take(i), sep) + sep
    };
    let back = if i + 1 == parts.len() {
        Seq::empty()
    } else {
        sep + join(parts.skip(i + 1), sep)
    };
    assert(join(parts, sep) =~= front + x + back);
}

/// Cutting a text at a character loses nothing but that character, and cuts at
/// its first place; a text that is not cut does not hold it.
pub proof fn law_cut(s: Seq<char>, c: char)
    ensures
        match cut(s, c) {
            Some((a, b)) => s == a + seq![c] + b && !a.contains(c),
            None => !s.contains(c),
        },
{
    lemma_first_index(s, c);
    let i = first_index(s, c) as int;
    if i < s.len() {
        assert(s =~= s.take(i) + seq![c] + s.skip(i + 1));
        if s.take(i).contains(c) {
            let j = choose|j: int| 0 <= j < s.take(i).len() && s.take(i)[j] == c;
            assert(s[j] == c);
        }
    } else if s.contains(c) {
        let j = choose|j: int| 0 <= j < s.len() && s[j] == c;
        assert(s[j] != c);
    }
}

/// The pieces of a text, put together again with the character between them,
/// are the text, and none of them holds the character.
pub proof fn law_pieces_make_up_the_text(s: Seq<char>, c: char)
    ensures
        pieces(s, c).len() > 0,
        join(pieces(s, c), seq![c]) == s,
        forall|i: int| 0 <= i < pieces(s, c).len() ==> !(#[trigger] pieces(s, c)[i]).contains(c),
    decreases s.len(),
{
    law_cut(s, c);
    match cut(s, c) {
        Some((a, b)) => {
            law_pieces_make_up_the_text(b, c);
            law_join(seq![a], pieces(b, c), a, seq![c]);
            assert(pieces(s, c) =~= seq![a] + pieces(b, c));
            assert(join(pieces(s, c), seq![c]) =~= s);
            assert forall|i: int| 0 <= i < pieces(s, c).len() implies !(#[trigger] pieces(s, c)[i]).contains(
                c,
            ) by {
                if i > 0 {
                    assert(pieces(s, c)[i] == pieces(b, c)[i - 1]);
                }
            }
        },
        None => {
            law_join(seq![s], seq![s], s, seq![c]);
        },
    }
}

/// A text starts with another exactly when it is that one with something behind
/// it, and what is stripped off is that one.
pub proof fn law_prefix(s: Seq<char>, p: Seq<char>, rest: Seq<char>)
    ensures
        starts(p + rest, p),
        stripped(p + rest, p) == Some(rest),
        match stripped(s, p) {
            Some(tail) => s == p + tail,
            None => forall|tail: Seq<char>| s != #[trigger] (p + tail),
        },
{
    assert((p + rest).take(p.len() as int) =~= p);
    assert((p + rest).skip(p.len() as int) =~= rest);
    if starts(s, p) {
        assert(s =~= p + s.skip(p.len() as int));
    } else {
        assert forall|tail: Seq<char>| s != #[trigger] (p + tail) by {
            if s == p + tail {
                assert(s.take(p.len() as int) =~= p);
            }
        }
    }
}

/// A text that is found stands where it was found and nowhere before; one that
/// is not found stands nowhere.
pub proof fn law_find(s: Seq<char>, p: Seq<char>)
    ensures
        match find(s, p) {
            Some(i) => {
                &&& i + p.len() <= s.len()
                &&& s.subrange(i as int, (i + p.len()) as int) == p
                &&& forall|j: int|
                    0 <= j < i && j + p.len() <= s.len() ==> #[trigger] s.subrange(j, j + p.len()) != p
            },
            None => forall|j: int|
                0 <= j && j + p.len() <= s.len() ==> #[trigger] s.subrange(j, j + p.len()) != p,
        },
        holds(s, p) <==> exists|a: Seq<char>, b: Seq<char>| s == #[trigger] (a + p + b),
    decreases s.len(),
{
    if starts(s, p) {
        assert(s.subrange(0, p.len() as int) =~= p);
        assert(s =~= Seq::empty() + p + s.skip(p.len() as int));
    } else if s.len() == 0 {
        assert forall|a: Seq<char>, b: Seq<char>| s != #[trigger] (a + p + b) by {
            if s == a + p + b {
                assert(p =~= Seq::empty());
                assert(s.take(0) =~= p);
            }
        }
    } else {
        let t = s.skip(1);
        law_find(t, p);
        assert forall|j: int| 1 <= j && j + p.len() <= s.len() implies #[trigger] s.subrange(j, j + p.len())
            == t.subrange(j - 1, j - 1 + p.len()) by {
            assert(s.subrange(j, j + p.len()) =~= t.subrange(j - 1, j - 1 + p.len()));
        }
        if p.len() <= s.len() {
            assert(s.subrange(0, p.len() as int) =~= s.take(p.len() as int));
        }
        match find(t, p) {
            Some(i) => {
                let at = i + 1;
                assert(s.subrange(at as int, (at + p.len()) as int) == p);
                assert(s =~= s.take(at as int) + p + s.skip((at + p.len()) as int));
            },
            None => {
                assert forall|a: Seq<char>, b: Seq<char>| s != #[trigger] (a + p + b) by {
                    if s == a + p + b {
                        let j = a.len() as int;
                        assert(s.subrange(j, j + p.len()) =~= p);
                    }
                }
            },
        }
    }
}

/// Lower case changes the capitals `A` to `Z` into `a` to `z`, one for one, and
/// nothing else; upper case changes them back.
pub proof fn law_ascii_case(s: Seq<char>, i: int)
    requires
        0 <= i < s.len(),
    ensures
        lowered(s).len() == s.len(),
        uppered(s).len() == s.len(),
        'A' <= s[i] && s[i] <= 'Z' ==> lowered(s)[i] as u32 == s[i] as u32 + 32 && uppered(s)[i] == s[i],
        'a' <= s[i] && s[i] <= 'z' ==> uppered(s)[i] as u32 + 32 == s[i] as u32 && lowered(s)[i] == s[i],
        !('A' <= s[i] && s[i] <= 'Z') && !('a' <= s[i] && s[i] <= 'z') ==> lowered(s)[i] == s[i]
            && uppered(s)[i] == s[i],
{
}

/// Dividing towards zero: quotient and remainder make up the dividend, the
/// remainder is smaller than the divisor and has the dividend's sign.
pub proof fn law_division(a: int, b: int)
    requires
        b > 0,
    ensures
        a == b * quot(a, b) + rem(a, b),
        a >= 0 ==> 0 <= rem(a, b) < b,
        a <= 0 ==> -b < rem(a, b) <= 0,
{
    let m = if a >= 0 {
        a
    } else {
        -a
    };
    vstd::arithmetic::div_mod::lemma_fundamental_div_mod(m, b);
    vstd::arithmetic::div_mod::lemma_mod_bound(m, b);
    let p = m / b;
    assert(b * (-p) == -(b * p)) by (nonlinear_arith);
}

/// A quotient and a remainder in range are the ones that division gives.
pub proof fn lemma_division_is(a: int, b: int, q: int, r: int)
    requires
        b > 0,
        q >= 0,
        0 <= r < b,
        a == q * b + r,
    ensures
        a >= 0,
        quot(a, b) == q,
        rem(a, b) == r,
{
    assert(q * b >= 0) by (nonlinear_arith)
        requires
            q >= 0,
            b > 0,
    ;
    vstd::arithmetic::div_mod::lemma_fundamental_div_mod_converse(a, b, q, r);
    assert(b * q == q * b) by (nonlinear_arith);
}

/// What reads as a number is written as one: digits behind at most a plus sign,
/// of that value; and every number that is not too large is read.
pub proof fn law_numbers_are_read(s: Seq<char>, max: nat, n: nat)
    ensures
        read_number(s, max) matches Some(v) ==> v <= max && s.len() > 0 && (is_digits(s) && digits_value(s) == v
            || s[0] == '+' && is_digits(s.skip(1)) && digits_value(s.skip(1)) == v),
        n <= max ==> read_number(decimal(n), max) == Some(n),
        n <= max ==> read_number(seq!['+'] + decimal(n), max) == Some(n),
        n > max ==> read_number(decimal(n), max) is None,
{
    law_decimal_reads_back(n);
    let d = decimal(n);
    assert(d[0] != '+');
    assert((seq!['+'] + d).skip(1) =~= d);
}

/// Text in capitals has no small ASCII letter left where the text is ASCII, and
/// the other way round.
pub proof fn law_case_of_ascii_text(s: Seq<char>)
    requires
        is_ascii_text(s),
    ensures
        upper_text(s) == uppered(s),
        lower_text(s) == lowered(s),
        forall|i: int| 0 <= i < s.len() ==> !('a' <= #[trigger] upper_text(s)[i] && upper_text(s)[i] <= 'z'),
        forall|i: int| 0 <= i < s.len() ==> !('A' <= #[trigger] lower_text(s)[i] && lower_text(s)[i] <= 'Z'),
{
    assert forall|i: int| 0 <= i < s.len() implies !('a' <= #[trigger] upper_text(s)[i] && upper_text(s)[i]
        <= 'z') by {
        law_ascii_case(s, i);
    }
    assert forall|i: int| 0 <= i < s.len() implies !('A' <= #[trigger] lower_text(s)[i] && lower_text(s)[i]
        <= 'Z') by {
        law_ascii_case(s, i);
    }
}

/// Among the ASCII characters white space is the blank, the tab and the four
/// line breaks, and nothing that can be seen.
pub proof fn law_ascii_white_space(c: char)
    requires
        (c as u32) < 128,
    ensures
        is_space(c) <==> c == ' ' || c == '\t' || c == '\n' || c == '\r' || c as u32 == 0x0b || c as u32 == 0x0c,
{
}

/// Beyond ASCII white space are the blanks and the separators of Unicode, and no
/// letter of any language.
pub proof fn law_other_white_space(c: char)
    requires
        (c as u32) >= 128,
    ensures
        is_space(c) <==> c == '\u{85}' || c == '\u{a0}' || c == '\u{1680}' || ('\u{2000}' <= c && c <= '\u{200a}')
            || c == '\u{2028}' || c == '\u{2029}' || c == '\u{202f}' || c == '\u{205f}' || c == '\u{3000}',
{
}

/// Digits are worth ten times as much for every digit behind them.
pub proof fn law_digits_count_in_tens(s: Seq<char>, c: char)
    requires
        '0' <= c && c <= '9',
    ensures
        digits_value(Seq::empty()) == 0,
        digits_value(s.push(c)) == 10 * digits_value(s) + (c as u32 - 48),
{
    assert(s.push(c).drop_last() =~= s);
}

/// A text is cut at the first place of a character.
pub proof fn lemma_cut_is(a: Seq<char>, b: Seq<char>, c: char)
    requires
        !a.contains(c),
    ensures
        cut(a + seq![c] + b, c) == Some((a, b)),
{
    let s = a + seq![c] + b;
    assert forall|j: int| 0 <= j < a.len() implies s[j] != c by {
        assert(a.contains(a[j]));
    }
    lemma_first_index_is(s, c, a.len() as int);
    assert(s.take(a.len() as int) =~= a);
    assert(s.skip(a.len() as int + 1) =~= b);
}

/// Two texts that are the same are the same on both sides of the first place of
/// a character.
pub proof fn lemma_same_parts(a: Seq<char>, b: Seq<char>, x: Seq<char>, y: Seq<char>, c: char)
    requires
        !a.contains(c),
        !x.contains(c),
        a + seq![c] + b == x + seq![c] + y,
    ensures
        a == x,
        b == y,
{
    lemma_cut_is(a, b, c);
    lemma_cut_is(x, y, c);
}

} // verus!
