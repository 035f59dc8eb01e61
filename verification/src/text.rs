use vstd::prelude::*;
use vstd::string::*;
use vstd::utf8::*;

verus! {

broadcast use vstd::utf8::encode_utf8_decode_utf8, vstd::utf8::encode_utf8_valid_utf8;

/// The characters whose UTF-8 encoding is the byte range `from..to` of the
/// encoding of `s` (what `&s[from..to]` denotes in Rust).
pub open spec fn byte_slice(s: Seq<char>, from: int, to: int) -> Seq<char> {
    decode_utf8(encode_utf8(s).subrange(from, to))
}

/// Number of bytes of the UTF-8 encoding of `s` (what `str::len` returns).
pub open spec fn byte_len(s: Seq<char>) -> int {
    encode_utf8(s).len() as int
}

/// Whether byte offset `i` starts a character (or is the end) of `s`.
pub open spec fn on_boundary(s: Seq<char>, i: int) -> bool {
    is_char_boundary(encode_utf8(s), i)
}

/// `s[from..to].to_string()`, with the conditions under which Rust's range
/// indexing of a `str` does not panic.
pub fn byte_slice_string(s: &str, from: usize, to: usize) -> (r: String)
    requires
        from <= to <= byte_len(s@),
        on_boundary(s@, from as int),
        on_boundary(s@, to as int),
    ensures
        r@ == byte_slice(s@, from as int, to as int),
{
    let ghost bytes = encode_utf8(s@);
    let (head, _) = s.split_at(to);
    proof {
        assert(head.spec_bytes() =~= bytes.subrange(0, to as int));
        vstd::utf8::valid_utf8_split(bytes, to as int);
        assert(is_char_boundary(head.spec_bytes(), from as int)) by {
            boundary_of_prefix(bytes, to as int, from as int);
        }
    }
    let (_, mid) = head.split_at(from);
    proof {
        assert(mid.spec_bytes() =~= bytes.subrange(from as int, to as int));
        assert(decode_utf8(encode_utf8(mid@)) == mid@);
    }
    mid.to_string()
}

/// A boundary of a valid byte sequence that lies inside a prefix ending on a
/// boundary is a boundary of that prefix.
pub proof fn boundary_of_prefix(bytes: Seq<u8>, end: int, i: int)
    requires
        valid_utf8(bytes),
        is_char_boundary(bytes, end),
        is_char_boundary(bytes, i),
        0 <= i <= end,
    ensures
        is_char_boundary(bytes.subrange(0, end), i),
    decreases bytes.len(),
{
    vstd::utf8::valid_utf8_split(bytes, end);
    if i == 0 {
    } else if i == end {
        vstd::utf8::is_char_boundary_start_end_of_seq(bytes.subrange(0, end));
    } else {
        let prefix = bytes.subrange(0, end);
        let w = length_of_first_scalar(bytes);
        assert(take_first_scalar(prefix) =~= take_first_scalar(bytes)) by {
            reveal_with_fuel(is_char_boundary, 2);
        }
        reveal_with_fuel(is_char_boundary, 2);
        boundary_of_prefix(pop_first_scalar(bytes), end - w, i - w);
        assert(pop_first_scalar(prefix) =~= pop_first_scalar(bytes).subrange(0, end - w));
    }
}


/// The ASCII digit for `d < 10`.
pub open spec fn digit(d: nat) -> char {
    (d + 48) as char
}

/// Decimal digits of a natural number, most significant first, no leading zeros.
pub open spec fn digits(n: nat) -> Seq<char>
    decreases n,
{
    if n < 10 {
        seq![digit(n)]
    } else {
        digits(n / 10).push(digit(n % 10))
    }
}

/// The number a text of decimal digits denotes (most significant first).
pub open spec fn digits_value(s: Seq<char>) -> int
    decreases s.len(),
{
    if s.len() == 0 {
        0
    } else {
        digits_value(s.drop_last()) * 10 + (s.last() as int - 48)
    }
}

/// Whether every character is one of `0` to `9`.
pub open spec fn all_digits(s: Seq<char>) -> bool {
    forall|i: int| 0 <= i < s.len() ==> '0' <= #[trigger] s[i] <= '9'
}

/// The pieces joined back together, `sep` between two consecutive ones.
pub open spec fn join_with(pieces: Seq<Seq<char>>, sep: char) -> Seq<char>
    decreases pieces.len(),
{
    if pieces.len() == 0 {
        Seq::<char>::empty()
    } else if pieces.len() == 1 {
        pieces[0]
    } else {
        join_with(pieces.drop_last(), sep) + seq![sep] + pieces.last()
    }
}

/// How `Display` renders an integer: an optional minus sign, then the digits.
pub open spec fn decimal(i: int) -> Seq<char> {
    if i < 0 {
        seq!['-'] + digits((-i) as nat)
    } else {
        digits(i as nat)
    }
}

/// Appends the decimal digits of `n`.
fn push_digits(s: &mut String, n: u64)
    ensures
        final(s)@ == old(s)@ + digits(n as nat),
    decreases n,
{
    if n >= 10 {
        push_digits(s, n / 10);
    }
    let d: u8 = (n % 10) as u8;
    let c = (d + 48) as char;
    assert(c == digit((n % 10) as nat));
    push_char(s, c);
    assert(digits(n as nat) == if n < 10 {
        seq![digit(n as nat)]
    } else {
        digits((n / 10) as nat).push(digit((n % 10) as nat))
    });
}

/// Renders an integer in decimal, as `Display` for `i64` does.
pub fn i64_decimal(i: i64) -> (s: String)
    ensures
        s@ == decimal(i as int),
{
    let mut s = String::new();
    let magnitude: u64 = if i >= 0 {
        i as u64
    } else if i == i64::MIN {
        9_223_372_036_854_775_808u64
    } else {
        (-i) as u64
    };
    if i < 0 {
        push_char(&mut s, '-');
    }
    push_digits(&mut s, magnitude);
    assert(s@ =~= decimal(i as int));
    s
}

/// What `str::to_lowercase` returns for a given string (the Unicode
/// lowercase mapping of every character).
pub uninterp spec fn lowercase(s: Seq<char>) -> Seq<char>;

/// ASCII lowercase of one character.
pub open spec fn ascii_lower(c: char) -> char {
    if 'A' <= c && c <= 'Z' {
        ((c as u32) + 32) as char
    } else {
        c
    }
}

/// Calls std's `str::to_lowercase`. The contract names the result and adds
/// the one fact std documents plainly: on ASCII text it lowercases the ASCII
/// letters and keeps every other character. What it does on other
/// characters (Unicode case mapping) is left to the name.
#[verifier::external_body]
pub(crate) fn str_to_lowercase(s: &str) -> (r: String)
    ensures
        r@ == lowercase(s@),
        is_ascii_chars(s@) ==> r@ == s@.map_values(|c: char| ascii_lower(c)),
{
    s.to_lowercase()
}

/// Appends one character; calls std's `String::push`.
#[verifier::external_body]
pub(crate) fn push_char(s: &mut String, c: char)
    ensures
        final(s)@ == old(s)@.push(c),
{
    s.push(c)
}

/// Text equality, as `==` between two string slices computes it.
pub fn same_text(a: &str, b: &str) -> (r: bool)
    ensures
        r == (a@ == b@),
{
    let x = a.to_string();
    let y = b.to_string();
    x == y
}

/// The pieces of `s` between occurrences of `sep`, as `str::split` with a
/// one-character pattern yields them (always at least one piece).
pub open spec fn split_char(s: Seq<char>, sep: char) -> Seq<Seq<char>>
    decreases s.len(),
{
    if s.len() == 0 {
        seq![Seq::<char>::empty()]
    } else {
        let init = split_char(s.drop_last(), sep);
        if s.last() == sep {
            init.push(Seq::<char>::empty())
        } else {
            init.update(init.len() - 1, init.last().push(s.last()))
        }
    }
}

pub proof fn lemma_split_char_nonempty(s: Seq<char>, sep: char)
    ensures
        split_char(s, sep).len() >= 1,
    decreases s.len(),
{
    if s.len() > 0 {
        lemma_split_char_nonempty(s.drop_last(), sep);
    }
}

/// The views of a vector of strings.
pub open spec fn views(v: Seq<String>) -> Seq<Seq<char>> {
    v.map_values(|x: String| x@)
}

/// `s.split(sep).collect::<Vec<_>>()`, as owned strings.
pub fn split_on(s: &str, sep: char) -> (pieces: Vec<String>)
    ensures
        views(pieces@) == split_char(s@, sep),
{
    let n = s.unicode_len();
    let mut pieces: Vec<String> = Vec::new();
    let mut current = String::new();
    let mut i: usize = 0;
    while i < n
        invariant
            n == s@.len(),
            i <= n,
            views(pieces@).push(current@) == split_char(s@.take(i as int), sep),
        decreases n - i,
    {
        let c = s.get_char(i);
        proof {
            lemma_split_char_nonempty(s@.take(i as int), sep);
            assert(s@.take(i + 1).drop_last() =~= s@.take(i as int));
        }
        let ghost before = views(pieces@);
        let ghost cur = current@;
        if c == sep {
            pieces.push(current);
            current = String::new();
            assert(views(pieces@) =~= before.push(cur));
            assert(views(pieces@).push(current@) =~= before.push(cur).push(Seq::<char>::empty()));
        } else {
            push_char(&mut current, c);
            assert(views(pieces@).push(current@) =~= before.push(cur).update(
                before.len() as int,
                cur.push(c),
            ));
        }
        i = i + 1;
    }
    assert(s@.take(n as int) =~= s@);
    let ghost before = views(pieces@);
    let ghost cur = current@;
    pieces.push(current);
    assert(views(pieces@) =~= before.push(cur));
    pieces
}

} // verus!
