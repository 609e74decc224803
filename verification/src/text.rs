//! Character-level text helpers shared by the request checks, object keys and
//! spreadsheet rows.
use vstd::prelude::*;

verus! {

/// Characters with the Unicode `White_Space` property, which is what
/// `char::is_whitespace` and therefore `str::trim` test.
pub open spec fn is_space(c: char) -> bool {
    let n = c as u32;
    ||| n == 0x20
    ||| (0x09 <= n && n <= 0x0d)
    ||| n == 0x85
    ||| n == 0xa0
    ||| n == 0x1680
    ||| (0x2000 <= n && n <= 0x200a)
    ||| n == 0x2028
    ||| n == 0x2029
    ||| n == 0x202f
    ||| n == 0x205f
    ||| n == 0x3000
}

/// `s` without its leading white space.
pub open spec fn skip_leading(s: Seq<char>) -> Seq<char>
    decreases s.len(),
{
    if s.len() > 0 && is_space(s[0]) {
        skip_leading(s.drop_first())
    } else {
        s
    }
}

/// `s` without its trailing white space.
pub open spec fn skip_trailing(s: Seq<char>) -> Seq<char>
    decreases s.len(),
{
    if s.len() > 0 && is_space(s.last()) {
        skip_trailing(s.drop_last())
    } else {
        s
    }
}

/// `s` with white space removed at both ends.
pub open spec fn trimmed(s: Seq<char>) -> Seq<char> {
    skip_trailing(skip_leading(s))
}

/// `s` has `p` as its first characters.
pub open spec fn has_prefix(s: Seq<char>, p: Seq<char>) -> bool {
    p.len() <= s.len() && s.subrange(0, p.len() as int) == p
}

/// `s` has `p` as its last characters.
pub open spec fn has_suffix(s: Seq<char>, p: Seq<char>) -> bool {
    p.len() <= s.len() && s.subrange(s.len() - p.len(), s.len() as int) == p
}

/// `p` occurs somewhere in `s` as a contiguous run.
pub open spec fn has_infix(s: Seq<char>, p: Seq<char>) -> bool {
    exists|i: int| 0 <= i && i + p.len() <= s.len() && #[trigger] s.subrange(i, i + p.len()) == p
}

/// What `str::to_lowercase` returns for a string with these characters.
pub uninterp spec fn lowercase_of(s: Seq<char>) -> Seq<char>;

/// What `str::to_uppercase` returns for a string with these characters.
pub uninterp spec fn uppercase_of(s: Seq<char>) -> Seq<char>;

/// Every character is ASCII.
pub open spec fn all_ascii(s: Seq<char>) -> bool {
    forall|i: int| 0 <= i < s.len() ==> (#[trigger] s[i] as int) < 128
}

/// An ASCII upper-case letter becomes its lower-case letter; any other
/// character stays.
pub open spec fn ascii_lower(c: char) -> char {
    if 65 <= (c as int) <= 90 {
        ((c as int) + 32) as char
    } else {
        c
    }
}

/// An ASCII lower-case letter becomes its upper-case letter; any other
/// character stays.
pub open spec fn ascii_upper(c: char) -> char {
    if 97 <= (c as int) <= 122 {
        ((c as int) - 32) as char
    } else {
        c
    }
}

/// Calls `str::to_lowercase`; the result is named by `lowercase_of`. It is
/// empty exactly when the input is, and on ASCII text it lower-cases the
/// letters `A`-`Z` and keeps every other character (the Unicode lower-case
/// mapping of ASCII).
#[verifier::external_body]
pub(crate) fn to_lowercase(s: &str) -> (r: String)
    ensures
        r@ == lowercase_of(s@),
        r@.len() == 0 <==> s@.len() == 0,
        all_ascii(s@) ==> r@ == s@.map_values(|c: char| ascii_lower(c)),
{
    s.to_lowercase()
}

/// Calls `str::to_uppercase`; the result is named by `uppercase_of`. It is
/// empty exactly when the input is, and on ASCII text it upper-cases the
/// letters `a`-`z` and keeps every other character (the Unicode upper-case
/// mapping of ASCII).
#[verifier::external_body]
pub(crate) fn to_uppercase(s: &str) -> (r: String)
    ensures
        r@ == uppercase_of(s@),
        r@.len() == 0 <==> s@.len() == 0,
        all_ascii(s@) ==> r@ == s@.map_values(|c: char| ascii_upper(c)),
{
    s.to_uppercase()
}

/// Calls `String::push`: the string grows by the one character.
#[verifier::external_body]
pub(crate) fn push_char(s: &mut String, c: char)
    ensures
        final(s)@ == old(s)@.push(c),
{
    s.push(c)
}

/// Tests membership in the Unicode `White_Space` set.
pub fn space_char(c: char) -> (r: bool)
    ensures
        r == is_space(c),
{
    let n = c as u32;
    n == 0x20 || (0x09 <= n && n <= 0x0d) || n == 0x85 || n == 0xa0 || n == 0x1680 || (0x2000
        <= n && n <= 0x200a) || n == 0x2028 || n == 0x2029 || n == 0x202f || n == 0x205f || n
        == 0x3000
}

/// The characters of `s`, in order.
pub fn chars_of(s: &str) -> (v: Vec<char>)
    ensures
        v@ == s@,
{
    let n = s.unicode_len();
    let mut v: Vec<char> = Vec::new();
    let mut i: usize = 0;
    while i < n
        invariant
            n == s@.len(),
            i <= n,
            v@ == s@.subrange(0, i as int),
        decreases n - i,
    {
        let c = s.get_char(i);
        v.push(c);
        i = i + 1;
        assert(v@ =~= s@.subrange(0, i as int));
    }
    assert(v@ =~= s@);
    v
}

/// A string holding the characters `v[from..to]`.
pub fn string_from(v: &Vec<char>, from: usize, to: usize) -> (s: String)
    requires
        from <= to <= v@.len(),
    ensures
        s@ == v@.subrange(from as int, to as int),
{
    let mut s = String::new();
    let mut i = from;
    while i < to
        invariant
            from <= i <= to <= v@.len(),
            s@ == v@.subrange(from as int, i as int),
        decreases to - i,
    {
        push_char(&mut s, v[i]);
        i = i + 1;
        assert(s@ =~= v@.subrange(from as int, i as int));
    }
    s
}

/// A string holding all of `v`.
pub fn string_of(v: &Vec<char>) -> (s: String)
    ensures
        s@ == v@,
{
    let s = string_from(v, 0, v.len());
    assert(v@.subrange(0, v@.len() as int) =~= v@);
    s
}

/// Text equality, character by character.
pub fn same_text(a: &str, b: &str) -> (r: bool)
    ensures
        r == (a@ == b@),
{
    let x = a.to_owned();
    let y = b.to_owned();
    x == y
}

/// Index of the first character of `v` that is not white space.
fn first_non_space(v: &Vec<char>) -> (lo: usize)
    ensures
        lo <= v@.len(),
        skip_leading(v@) == v@.subrange(lo as int, v@.len() as int),
{
    let n = v.len();
    let mut lo: usize = 0;
    assert(v@.subrange(0, n as int) =~= v@);
    while lo < n && space_char(v[lo])
        invariant
            n == v@.len(),
            lo <= n,
            skip_leading(v@) == skip_leading(v@.subrange(lo as int, n as int)),
        decreases n - lo,
    {
        let ghost t = v@.subrange(lo as int, n as int);
        assert(t.drop_first() =~= v@.subrange(lo + 1, n as int));
        lo = lo + 1;
    }
    lo
}

/// Trims white space at both ends, as `str::trim` does.
pub fn trim(s: &str) -> (r: String)
    ensures
        r@ == trimmed(s@),
{
    let v = chars_of(s);
    let n = v.len();
    let lo = first_non_space(&v);
    let mut hi: usize = n;
    assert(v@.subrange(lo as int, n as int) =~= v@.subrange(lo as int, hi as int));
    while hi > lo && space_char(v[hi - 1])
        invariant
            n == v@.len(),
            lo <= hi <= n,
            trimmed(v@) == skip_trailing(v@.subrange(lo as int, hi as int)),
        decreases hi - lo,
    {
        let ghost t = v@.subrange(lo as int, hi as int);
        assert(t.drop_last() =~= v@.subrange(lo as int, hi - 1));
        hi = hi - 1;
    }
    string_from(&v, lo, hi)
}

/// `s` has `p` as its first characters.
pub fn starts_with(s: &str, p: &str) -> (r: bool)
    ensures
        r == has_prefix(s@, p@),
{
    let a = chars_of(s);
    let b = chars_of(p);
    if b.len() > a.len() {
        return false;
    }
    let mut i: usize = 0;
    while i < b.len()
        invariant
            a@ == s@,
            b@ == p@,
            b@.len() <= a@.len(),
            i <= b@.len(),
            forall|k: int| 0 <= k < i ==> a@[k] == b@[k],
        decreases b@.len() - i,
    {
        if a[i] != b[i] {
            assert(a@.subrange(0, b@.len() as int)[i as int] != b@[i as int]);
            return false;
        }
        i = i + 1;
    }
    assert(a@.subrange(0, b@.len() as int) =~= b@);
    true
}

/// `s` has `p` as its last characters.
pub fn ends_with(s: &str, p: &str) -> (r: bool)
    ensures
        r == has_suffix(s@, p@),
{
    let a = chars_of(s);
    let b = chars_of(p);
    if b.len() > a.len() {
        return false;
    }
    let alen = a.len();
    let off = alen - b.len();
    let mut i: usize = 0;
    while i < b.len()
        invariant
            a@ == s@,
            b@ == p@,
            b@.len() <= a@.len(),
            off == a@.len() - b@.len(),
            alen == a@.len(),
            i <= b@.len(),
            forall|k: int| 0 <= k < i ==> a@[off + k] == b@[k],
        decreases b@.len() - i,
    {
        if a[off + i] != b[i] {
            assert(a@.subrange(off as int, a@.len() as int)[i as int] != b@[i as int]);
            return false;
        }
        i = i + 1;
    }
    assert(a@.subrange(off as int, a@.len() as int) =~= b@);
    true
}

/// `c` occurs in `s`.
pub fn contains_char(s: &str, c: char) -> (r: bool)
    ensures
        r == s@.contains(c),
{
    let v = chars_of(s);
    let mut i: usize = 0;
    while i < v.len()
        invariant
            v@ == s@,
            i <= v@.len(),
            forall|k: int| 0 <= k < i ==> v@[k] != c,
        decreases v@.len() - i,
    {
        if v[i] == c {
            assert(v@[i as int] == c);
            return true;
        }
        i = i + 1;
    }
    false
}

/// `p` occurs in `s` as a contiguous run.
pub fn contains_text(s: &str, p: &str) -> (r: bool)
    ensures
        r == has_infix(s@, p@),
{
    let a = chars_of(s);
    let b = chars_of(p);
    if b.len() > a.len() {
        assert forall|i: int| 0 <= i && i + b@.len() <= a@.len() implies #[trigger] a@.subrange(
            i,
            i + b@.len(),
        ) != b@ by {}
        return false;
    }
    if b.len() == 0 {
        assert(a@.subrange(0, 0int + b@.len()) =~= b@);
        return true;
    }
    let alen = a.len();
    let last = alen - b.len();
    let mut i: usize = 0;
    while i <= last
        invariant
            a@ == s@,
            b@ == p@,
            1 <= b@.len() <= a@.len(),
            last == a@.len() - b@.len(),
            alen == a@.len(),
            i <= last + 1,
            forall|k: int| 0 <= k < i ==> #[trigger] a@.subrange(k, k + b@.len()) != b@,
        decreases last + 1 - i,
    {
        let mut j: usize = 0;
        let mut same = true;
        while j < b.len()
            invariant
                a@ == s@,
                b@ == p@,
                1 <= b@.len() <= a@.len(),
                last == a@.len() - b@.len(),
                alen == a@.len(),
                i <= last,
                j <= b@.len(),
                same == (forall|k: int| 0 <= k < j ==> a@[i + k] == b@[k]),
            decreases b@.len() - j,
        {
            if a[i + j] != b[j] {
                same = false;
            }
            j = j + 1;
        }
        if same {
            assert(a@.subrange(i as int, i + b@.len()) =~= b@);
            return true;
        }
        assert(a@.subrange(i as int, i + b@.len())[0] == a@[i as int]);
        assert(exists|k: int| 0 <= k < b@.len() && a@[i + k] != b@[k]);
        let ghost k = choose|k: int| 0 <= k < b@.len() && a@[i + k] != b@[k];
        assert(a@.subrange(i as int, i + b@.len())[k] != b@[k]);
        i = i + 1;
    }
    false
}

/// The lower-case form of a text: the ASCII mapping when the text is ASCII,
/// otherwise what `str::to_lowercase` returns.
pub open spec fn lower_text(s: Seq<char>) -> Seq<char> {
    if all_ascii(s) {
        s.map_values(|c: char| ascii_lower(c))
    } else {
        lowercase_of(s)
    }
}

/// The upper-case form of a text: the ASCII mapping when the text is ASCII,
/// otherwise what `str::to_uppercase` returns.
pub open spec fn upper_text(s: Seq<char>) -> Seq<char> {
    if all_ascii(s) {
        s.map_values(|c: char| ascii_upper(c))
    } else {
        uppercase_of(s)
    }
}

/// The lower-case form of `s`.
pub fn lower_case(s: &str) -> (r: String)
    ensures
        r@ == lower_text(s@),
        r@ == lowercase_of(s@),
{
    to_lowercase(s)
}

/// The upper-case form of `s`.
pub fn upper_case(s: &str) -> (r: String)
    ensures
        r@ == upper_text(s@),
        r@ == uppercase_of(s@),
{
    to_uppercase(s)
}

/// Pieces joined with `sep` between them.
pub open spec fn join_pieces(ls: Seq<Seq<char>>, sep: char) -> Seq<char>
    decreases ls.len(),
{
    if ls.len() == 0 {
        Seq::empty()
    } else if ls.len() == 1 {
        ls[0]
    } else {
        join_pieces(ls.drop_last(), sep) + seq![sep] + ls.last()
    }
}

/// Joining one more piece appends the separator and the piece.
pub proof fn lemma_join_pieces_push(ls: Seq<Seq<char>>, x: Seq<char>, sep: char)
    ensures
        join_pieces(ls.push(x), sep) == (if ls.len() == 0 {
            x
        } else {
            join_pieces(ls, sep) + seq![sep] + x
        }),
{
    assert(ls.push(x).drop_last() =~= ls);
    assert(ls.push(x).last() == x);
    if ls.len() == 0 {
        assert(ls.push(x)[0] == x);
    }
}

/// A text split at every occurrence of `sep`, as `str::split` with a single
/// character gives it: one piece more than there are separators, empty pieces
/// kept.
pub open spec fn split_pieces(s: Seq<char>, sep: char) -> Seq<Seq<char>>
    decreases s.len(),
{
    if s.len() == 0 {
        seq![Seq::<char>::empty()]
    } else {
        let p = split_pieces(s.drop_last(), sep);
        if s.last() == sep {
            p.push(Seq::empty())
        } else {
            p.update(p.len() - 1, p.last().push(s.last()))
        }
    }
}

/// Splitting always gives at least one piece.
pub proof fn lemma_split_pieces_nonempty(s: Seq<char>, sep: char)
    ensures
        split_pieces(s, sep).len() >= 1,
    decreases s.len(),
{
    if s.len() > 0 {
        lemma_split_pieces_nonempty(s.drop_last(), sep);
    }
}

/// The views of a sequence of strings.
pub open spec fn string_views(v: Seq<String>) -> Seq<Seq<char>> {
    v.map_values(|t: String| t@)
}

/// The pieces of `s` between occurrences of `sep`.
pub fn split_char(s: &str, sep: char) -> (r: Vec<String>)
    ensures
        string_views(r@) == split_pieces(s@, sep),
{
    let v = chars_of(s);
    let n = v.len();
    let mut done: Vec<String> = Vec::new();
    let mut cur: Vec<char> = Vec::new();
    let mut i: usize = 0;
    while i < n
        invariant
            n == v@.len(),
            v@ == s@,
            i <= n,
            split_pieces(v@.take(i as int), sep) == string_views(done@).push(cur@),
        decreases n - i,
    {
        let c = v[i];
        assert(v@.take(i + 1).drop_last() =~= v@.take(i as int));
        assert(v@.take(i + 1).last() == c);
        proof {
            lemma_split_pieces_nonempty(v@.take(i as int), sep);
        }
        if c == sep {
            let piece = string_of(&cur);
            let ghost before = string_views(done@);
            done.push(piece);
            assert(string_views(done@) =~= before.push(cur@));
            cur = Vec::new();
            assert(split_pieces(v@.take(i + 1), sep) =~= string_views(done@).push(cur@));
        } else {
            cur.push(c);
            assert(split_pieces(v@.take(i + 1), sep) =~= string_views(done@).push(cur@));
        }
        i = i + 1;
    }
    assert(v@.take(n as int) =~= v@);
    let last = string_of(&cur);
    let ghost before = string_views(done@);
    done.push(last);
    assert(string_views(done@) =~= before.push(cur@));
    done
}

/// The decimal digit character for `d` (`0 <= d < 10`).
pub open spec fn digit_char(d: int) -> char {
    (('0' as int) + d) as char
}

/// The decimal digits of `n`, most significant first, without leading zeros.
pub open spec fn digits_of(n: nat) -> Seq<char>
    decreases n,
{
    if n < 10 {
        seq![digit_char(n as int)]
    } else {
        digits_of(n / 10).push(digit_char((n % 10) as int))
    }
}

/// The decimal text of an integer, with a leading `-` when negative (what the
/// integers' `Display` writes).
pub open spec fn int_text_of(n: int) -> Seq<char> {
    if n < 0 {
        seq!['-'] + digits_of((-n) as nat)
    } else {
        digits_of(n as nat)
    }
}

/// The digit character for `d`.
fn digit(d: u128) -> (c: char)
    requires
        d < 10,
    ensures
        c == digit_char(d as int),
{
    match d {
        0 => '0',
        1 => '1',
        2 => '2',
        3 => '3',
        4 => '4',
        5 => '5',
        6 => '6',
        7 => '7',
        8 => '8',
        _ => '9',
    }
}

/// The decimal text of `n`.
pub fn int_text(n: i64) -> (s: String)
    ensures
        s@ == int_text_of(n as int),
{
    let mut m: u128 = if n < 0 {
        (-(n as i128)) as u128
    } else {
        n as u128
    };
    let ghost total = m as nat;
    let mut acc: Vec<char> = Vec::new();
    while m >= 10
        invariant
            digits_of(total) == digits_of(m as nat) + acc@,
        decreases m,
    {
        let c = digit(m % 10);
        assert(c == digit_char((m % 10) as int));
        let ghost before = acc@;
        acc.insert(0, c);
        assert(digits_of(m as nat) == digits_of((m / 10) as nat).push(digit_char((m % 10) as int)));
        assert(digits_of((m / 10) as nat).push(c) + before =~= digits_of((m / 10) as nat) + acc@);
        m = m / 10;
    }
    let c = digit(m);
    assert(c == digit_char(m as int));
    acc.insert(0, c);
    assert(digits_of(total) =~= acc@);
    let mut out = String::new();
    if n < 0 {
        push_char(&mut out, '-');
    }
    let body = string_of(&acc);
    out.append(body.as_str());
    assert(n < 0 ==> out@ =~= seq!['-'] + digits_of(total));
    assert(n >= 0 ==> out@ =~= digits_of(total));
    out
}

} // verus!
