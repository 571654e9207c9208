//! Tab titles, per-pane state files, and the pane's own local pages.
use vstd::prelude::*;
use crate::text::{chars_of, is_whitespace, owned, spec_is_whitespace, string_of, trim, trimmed};
use crate::address::{is_http_url, spec_is_http_url};
use crate::encoding::{base64_decode, base64_encode, is_base64_symbol, lemma_base64_round_trip};

verus! {

/// Normalizing a title, one character at a time: the text written so far,
/// and whether white space has been seen since the last word.
spec fn title_fold(s: Seq<char>) -> (Seq<char>, bool)
    decreases s.len(),
{
    if s.len() == 0 {
        (seq![], false)
    } else {
        let (out, pending) = title_fold(s.drop_last());
        let c = s.last();
        if spec_is_whitespace(c) {
            (out, out.len() > 0)
        } else if pending {
            (out.push(' ').push(c), false)
        } else {
            (out.push(c), false)
        }
    }
}

/// The words of `s`, as `split_whitespace` gives them: its maximal runs of
/// characters that are not white space, in order. A character that is not
/// white space extends the last word when the character before it is not
/// white space either, and starts a new word otherwise.
pub open spec fn split_words(s: Seq<char>) -> Seq<Seq<char>>
    decreases s.len(),
{
    if s.len() == 0 {
        seq![]
    } else {
        let w = split_words(s.drop_last());
        let c = s.last();
        if spec_is_whitespace(c) {
            w
        } else if s.len() >= 2 && !spec_is_whitespace(s[s.len() - 2]) {
            w.update(w.len() - 1, w.last().push(c))
        } else {
            w.push(seq![c])
        }
    }
}

/// `words` joined with single spaces, as `join(" ")` gives them.
pub open spec fn join_words(words: Seq<Seq<char>>) -> Seq<char>
    decreases words.len(),
{
    if words.len() == 0 {
        seq![]
    } else if words.len() == 1 {
        words[0]
    } else {
        join_words(words.drop_last()) + seq![' '] + words.last()
    }
}

/// The words of `s` joined by single spaces.
pub open spec fn collapse_whitespace(s: Seq<char>) -> Seq<char> {
    join_words(split_words(s))
}

proof fn lemma_join_extend(w: Seq<Seq<char>>, c: char)
    requires
        w.len() > 0,
    ensures
        join_words(w.update(w.len() - 1, w.last().push(c))) == join_words(w).push(c),
{
    let u = w.update(w.len() - 1, w.last().push(c));
    if w.len() > 1 {
        assert(u.drop_last() =~= w.drop_last());
        assert(u.last() == w.last().push(c));
    }
}

proof fn lemma_join_push(w: Seq<Seq<char>>, x: Seq<char>)
    ensures
        w.len() == 0 ==> join_words(w.push(x)) == x,
        w.len() > 0 ==> join_words(w.push(x)) == join_words(w) + seq![' '] + x,
{
    assert(w.push(x).drop_last() =~= w);
}

proof fn lemma_join_nonempty(w: Seq<Seq<char>>)
    requires
        forall|i: int| 0 <= i < w.len() ==> (#[trigger] w[i]).len() > 0,
    ensures
        (join_words(w).len() > 0) == (w.len() > 0),
    decreases w.len(),
{
    if w.len() > 1 {
        assert(w.last() == w[w.len() - 1]);
    } else if w.len() == 1 {
        assert(w[0].len() > 0);
    }
}

/// The character-by-character normalization writes exactly the words joined
/// by single spaces, and has white space pending exactly after a word.
proof fn lemma_fold_is_joined_words(s: Seq<char>)
    ensures
        title_fold(s).0 == collapse_whitespace(s),
        title_fold(s).1 == (split_words(s).len() > 0 && spec_is_whitespace(s.last())),
        forall|i: int| 0 <= i < split_words(s).len() ==> (#[trigger] split_words(s)[i]).len() > 0,
        s.len() > 0 && !spec_is_whitespace(s.last()) ==> split_words(s).len() > 0,
    decreases s.len(),
{
    if s.len() > 0 {
        let p = s.drop_last();
        lemma_fold_is_joined_words(p);
        let w = split_words(p);
        let c = s.last();
        lemma_join_nonempty(w);
        if spec_is_whitespace(c) {
        } else if s.len() >= 2 && !spec_is_whitespace(s[s.len() - 2]) {
            assert(p.last() == s[s.len() - 2]);
            lemma_join_extend(w, c);
            let u = w.update(w.len() - 1, w.last().push(c));
            assert forall|i: int| 0 <= i < u.len() implies (#[trigger] u[i]).len() > 0 by {
                if i < w.len() - 1 {
                    assert(u[i] == w[i]);
                }
            }
        } else {
            lemma_join_push(w, seq![c]);
            let u = w.push(seq![c]);
            assert forall|i: int| 0 <= i < u.len() implies (#[trigger] u[i]).len() > 0 by {
                if i < w.len() {
                    assert(u[i] == w[i]);
                }
            }
            if p.len() > 0 {
                assert(p.last() == s[s.len() - 2]);
            }
        }
    }
}

/// The tab title for a page title: its words joined by single spaces, or
/// `Browser` when it has none.
pub open spec fn spec_display_title(title: Seq<char>) -> Seq<char> {
    if collapse_whitespace(title).len() == 0 {
        "Browser"@
    } else {
        collapse_whitespace(title)
    }
}

/// The tab title for a document title.
pub fn display_title(title: &str) -> (r: String)
    ensures
        r@ == spec_display_title(title@),
{
    let cs = chars_of(title);
    let mut out: Vec<char> = Vec::new();
    let mut pending = false;
    let mut i: usize = 0;
    while i < cs.len()
        invariant
            i <= cs@.len(),
            (out@, pending) == title_fold(cs@.take(i as int)),
        decreases cs@.len() - i,
    {
        let c = cs[i];
        assert(cs@.take(i + 1).drop_last() == cs@.take(i as int));
        if is_whitespace(c) {
            pending = out.len() > 0;
        } else {
            if pending {
                out.push(' ');
            }
            out.push(c);
            pending = false;
        }
        i = i + 1;
    }
    assert(cs@.take(cs@.len() as int) == cs@);
    proof {
        lemma_fold_is_joined_words(cs@);
    }
    if out.len() == 0 {
        owned("Browser")
    } else {
        string_of(out.as_slice())
    }
}

/// Text whose only white space is single spaces between words.
pub open spec fn is_collapsed(s: Seq<char>) -> bool {
    &&& forall|i: int| 0 <= i < s.len() && spec_is_whitespace(#[trigger] s[i]) ==> s[i] == ' '
    &&& s.len() > 0 ==> !spec_is_whitespace(s[0]) && !spec_is_whitespace(s.last())
    &&& forall|i: int|
        0 <= i < s.len() - 1 && spec_is_whitespace(#[trigger] s[i]) ==> !spec_is_whitespace(
            s[i + 1],
        )
}

/// The characters of `s` that are not white space.
pub open spec fn visible_chars(s: Seq<char>) -> Seq<char> {
    s.filter(|c: char| !spec_is_whitespace(c))
}

proof fn lemma_title_fold(s: Seq<char>)
    ensures
        is_collapsed(title_fold(s).0),
        title_fold(s).1 ==> title_fold(s).0.len() > 0,
        visible_chars(title_fold(s).0) == visible_chars(s),
    decreases s.len(),
{
    if s.len() > 0 {
        let p = s.drop_last();
        lemma_title_fold(p);
        let (out, pending) = title_fold(p);
        let c = s.last();
        assert(s =~= p.push(c));
        reveal_with_fuel(Seq::filter, 2);
        assert(p.push(c).drop_last() =~= p);
        if spec_is_whitespace(c) {
            assert(visible_chars(s) =~= visible_chars(p));
        } else if pending {
            let o1 = out.push(' ');
            let o2 = o1.push(c);
            assert(o1.drop_last() =~= out);
            assert(o2.drop_last() =~= o1);
            assert(spec_is_whitespace(' '));
            assert(visible_chars(o1) =~= visible_chars(out));
            assert(visible_chars(o2) =~= visible_chars(o1).push(c));
            assert(visible_chars(s) =~= visible_chars(p).push(c));
            assert forall|i: int| 0 <= i < o2.len() - 1 && spec_is_whitespace(#[trigger] o2[i]) implies !spec_is_whitespace(o2[i + 1]) by {
                if i < out.len() - 1 {
                    assert(o2[i] == out[i]);
                    assert(o2[i + 1] == out[i + 1]);
                }
            }
            assert forall|i: int| 0 <= i < o2.len() && spec_is_whitespace(#[trigger] o2[i]) implies o2[i] == ' ' by {
                if i < out.len() {
                    assert(o2[i] == out[i]);
                }
            }
        } else {
            let o = out.push(c);
            assert(o.drop_last() =~= out);
            assert(visible_chars(o) =~= visible_chars(out).push(c));
            assert(visible_chars(s) =~= visible_chars(p).push(c));
            assert forall|i: int| 0 <= i < o.len() - 1 && spec_is_whitespace(#[trigger] o[i]) implies !spec_is_whitespace(o[i + 1]) by {
                if i < out.len() - 1 {
                    assert(o[i] == out[i]);
                    assert(o[i + 1] == out[i + 1]);
                }
            }
            assert forall|i: int| 0 <= i < o.len() && spec_is_whitespace(#[trigger] o[i]) implies o[i] == ' ' by {
                if i < out.len() {
                    assert(o[i] == out[i]);
                }
            }
        }
    }
}

/// A tab title is never empty, has no leading, trailing or repeated white
/// space, uses only single spaces between words, and keeps every other
/// character of the document title in order.
pub proof fn lemma_display_title_is_normalized(title: Seq<char>)
    ensures
        spec_display_title(title).len() > 0,
        is_collapsed(spec_display_title(title)),
        collapse_whitespace(title).len() > 0 ==> visible_chars(spec_display_title(title))
            == visible_chars(title),
        collapse_whitespace(title).len() == 0 ==> visible_chars(title).len() == 0,
{
    lemma_title_fold(title);
    lemma_fold_is_joined_words(title);
    if collapse_whitespace(title).len() == 0 {
        reveal_strlit("Browser");
        let b = spec_display_title(title);
        assert(b == seq!['B', 'r', 'o', 'w', 's', 'e', 'r']);
        assert(is_collapsed(b));
        assert(visible_chars(seq![]) =~= Seq::<char>::empty());
    }
}

/// Text with no leading white space, no repeated white space, and only spaces
/// as white space (it may end with one space).
pub open spec fn is_collapsed_prefix(s: Seq<char>) -> bool {
    &&& forall|i: int| 0 <= i < s.len() && spec_is_whitespace(#[trigger] s[i]) ==> s[i] == ' '
    &&& s.len() > 0 ==> !spec_is_whitespace(s[0])
    &&& forall|i: int|
        0 <= i < s.len() - 1 && spec_is_whitespace(#[trigger] s[i]) ==> !spec_is_whitespace(
            s[i + 1],
        )
}

proof fn lemma_fold_of_collapsed(s: Seq<char>)
    requires
        is_collapsed_prefix(s),
    ensures
        s.len() > 0 && s.last() == ' ' ==> title_fold(s) == (s.drop_last(), true),
        !(s.len() > 0 && s.last() == ' ') ==> title_fold(s) == (s, false),
    decreases s.len(),
{
    if s.len() > 0 {
        let p = s.drop_last();
        assert forall|i: int| 0 <= i < p.len() && spec_is_whitespace(#[trigger] p[i]) implies p[i] == ' ' by {
            assert(p[i] == s[i]);
        }
        assert forall|i: int| 0 <= i < p.len() - 1 && spec_is_whitespace(#[trigger] p[i]) implies !spec_is_whitespace(p[i + 1]) by {
            assert(p[i] == s[i]);
            assert(p[i + 1] == s[i + 1]);
        }
        if p.len() > 0 {
            assert(p[0] == s[0]);
        }
        lemma_fold_of_collapsed(p);
        let c = s.last();
        assert(spec_is_whitespace(' '));
        if p.len() > 0 && p.last() == ' ' {
            assert(s[s.len() - 2] == ' ');
            assert(!spec_is_whitespace(c));
            assert(p.drop_last().push(' ').push(c) =~= s);
        } else {
            assert(p.push(c) =~= s);
            if spec_is_whitespace(c) {
                assert(c == s[s.len() - 1]);
                assert(s.len() > 1);
                assert(p.len() > 0);
            }
        }
    }
}

/// Normalizing a tab title again changes nothing.
pub proof fn lemma_display_title_is_idempotent(title: Seq<char>)
    ensures
        spec_display_title(spec_display_title(title)) == spec_display_title(title),
{
    lemma_display_title_is_normalized(title);
    let t = spec_display_title(title);
    assert(is_collapsed_prefix(t));
    lemma_fold_of_collapsed(t);
    lemma_fold_is_joined_words(t);
    assert(t.last() != ' ') by {
        assert(spec_is_whitespace(' '));
    }
}

/// The FNV-1a offset basis.
pub const FNV_OFFSET: u64 = 0xcbf29ce484222325u64;

/// The FNV-1a prime.
pub const FNV_PRIME: u64 = 0x100000001b3u64;

/// The 64-bit FNV-1a hash of `bytes`.
pub open spec fn fnv1a(bytes: Seq<u8>) -> u64
    decreases bytes.len(),
{
    if bytes.len() == 0 {
        FNV_OFFSET
    } else {
        (fnv1a(bytes.drop_last()) ^ (bytes.last() as u64)).wrapping_mul(FNV_PRIME)
    }
}

/// The hash that names a space's state files: FNV-1a of its UTF-8 bytes.
pub open spec fn space_hash(space: Seq<char>) -> u64 {
    fnv1a(vstd::utf8::encode_utf8(space))
}

/// The FNV-1a hash of the UTF-8 encoding of `space`.
pub fn hash_space(space: &str) -> (h: u64)
    ensures
        h == space_hash(space@),
{
    let bytes = space.as_bytes();
    let mut hash: u64 = FNV_OFFSET;
    let mut i: usize = 0;
    while i < bytes.len()
        invariant
            i <= bytes@.len(),
            hash == fnv1a(bytes@.take(i as int)),
        decreases bytes@.len() - i,
    {
        assert(bytes@.take(i + 1).drop_last() == bytes@.take(i as int));
        hash = (hash ^ (bytes[i] as u64)).wrapping_mul(FNV_PRIME);
        i = i + 1;
    }
    assert(bytes@.take(bytes@.len() as int) == bytes@);
    hash
}

/// The lower-case hexadecimal digit for `d` (0 to 15).
pub open spec fn hex_char(d: int) -> char {
    if d == 0 { '0' } else if d == 1 { '1' } else if d == 2 { '2' } else if d == 3 { '3' }
    else if d == 4 { '4' } else if d == 5 { '5' } else if d == 6 { '6' } else if d == 7 { '7' }
    else if d == 8 { '8' } else if d == 9 { '9' } else if d == 10 { 'a' } else if d == 11 { 'b' }
    else if d == 12 { 'c' } else if d == 13 { 'd' } else if d == 14 { 'e' } else { 'f' }
}

/// The decimal digit for `d` (0 to 9).
pub open spec fn decimal_char(d: int) -> char {
    if d == 0 { '0' } else if d == 1 { '1' } else if d == 2 { '2' } else if d == 3 { '3' }
    else if d == 4 { '4' } else if d == 5 { '5' } else if d == 6 { '6' } else if d == 7 { '7' }
    else if d == 8 { '8' } else { '9' }
}

fn hex_digit(d: u64) -> (c: char)
    requires
        d < 16,
    ensures
        c == hex_char(d as int),
{
    match d {
        0 => '0', 1 => '1', 2 => '2', 3 => '3', 4 => '4', 5 => '5', 6 => '6', 7 => '7',
        8 => '8', 9 => '9', 10 => 'a', 11 => 'b', 12 => 'c', 13 => 'd', 14 => 'e', _ => 'f',
    }
}

fn decimal_digit(d: u64) -> (c: char)
    requires
        d < 10,
    ensures
        c == decimal_char(d as int),
{
    match d {
        0 => '0', 1 => '1', 2 => '2', 3 => '3', 4 => '4', 5 => '5', 6 => '6', 7 => '7',
        8 => '8', _ => '9',
    }
}

/// The last `n` hexadecimal digits of `h`, most significant first.
pub open spec fn hex_digits(h: nat, n: nat) -> Seq<char>
    decreases n,
{
    if n == 0 {
        seq![]
    } else {
        hex_digits(h / 16, (n - 1) as nat).push(hex_char((h % 16) as int))
    }
}

/// `h` as sixteen lower-case hexadecimal digits, as `{h:016x}` writes it.
pub open spec fn hex16(h: u64) -> Seq<char> {
    hex_digits(h as nat, 16)
}

/// `n` in decimal, as `{n}` writes it.
pub open spec fn decimal(n: nat) -> Seq<char>
    decreases n,
{
    if n < 10 {
        seq![decimal_char(n as int)]
    } else {
        decimal(n / 10).push(decimal_char((n % 10) as int))
    }
}

/// Sixteen lower-case hexadecimal digits of `h`.
pub fn hex16_of(h: u64) -> (r: Vec<char>)
    ensures
        r@ == hex16(h),
{
    let mut acc: Vec<char> = Vec::new();
    let mut m: u64 = h;
    let mut k: u64 = 0;
    while k < 16
        invariant
            k <= 16,
            hex16(h) == hex_digits(m as nat, (16 - k) as nat) + acc@,
        decreases 16 - k,
    {
        let ghost before = acc@;
        let c = hex_digit(m % 16);
        acc.insert(0, c);
        assert(hex_digits(m as nat, (16 - k) as nat) == hex_digits((m / 16) as nat, (15 - k) as nat).push(c));
        assert(hex_digits((m / 16) as nat, (15 - k) as nat).push(c) + before =~= hex_digits((m / 16) as nat, (15 - k) as nat) + acc@);
        m = m / 16;
        k = k + 1;
    }
    assert(hex_digits(m as nat, 0) + acc@ =~= acc@);
    acc
}

/// The decimal digits of `n`.
pub fn decimal_of(n: u64) -> (r: Vec<char>)
    ensures
        r@ == decimal(n as nat),
{
    let mut acc: Vec<char> = Vec::new();
    let mut m: u64 = n;
    while m >= 10
        invariant
            decimal(n as nat) == decimal(m as nat) + acc@,
        decreases m,
    {
        let ghost before = acc@;
        let c = decimal_digit(m % 10);
        acc.insert(0, c);
        assert(decimal(m as nat) == decimal((m / 10) as nat).push(c));
        assert(decimal((m / 10) as nat).push(c) + before =~= decimal((m / 10) as nat) + acc@);
        m = m / 10;
    }
    let c = decimal_digit(m);
    let ghost before = acc@;
    acc.insert(0, c);
    assert(decimal(m as nat) == seq![c]);
    assert(seq![c] + before =~= acc@);
    acc
}

/// `component` appended to the path `base`, as `Path::join` does for a
/// relative component: with a `/` between them unless `base` is empty or
/// already ends with one.
pub open spec fn join_path(base: Seq<char>, component: Seq<char>) -> Seq<char> {
    if base.len() == 0 {
        component
    } else if base.last() == '/' {
        base + component
    } else {
        base.push('/') + component
    }
}

pub(crate) fn join_to(base: &str, component: &[char]) -> (r: String)
    ensures
        r@ == join_path(base@, component@),
{
    let b = chars_of(base);
    let mut r = string_of(b.as_slice());
    if b.len() > 0 && b[b.len() - 1] != '/' {
        r.push('/');
    }
    let mut i: usize = 0;
    let ghost start = r@;
    while i < component.len()
        invariant
            i <= component@.len(),
            r@ == start + component@.take(i as int),
        decreases component@.len() - i,
    {
        r.push(component[i]);
        assert(component@.take(i + 1) == component@.take(i as int).push(component@[i as int]));
        i = i + 1;
    }
    assert(component@.take(component@.len() as int) == component@);
    r
}

/// The name of the file that holds a pane's last address:
/// `{hash:016x}-{instance}.url`.
pub open spec fn state_file_name(space: Seq<char>, instance: u64) -> Seq<char> {
    hex16(space_hash(space)) + seq!['-'] + decimal(instance as nat) + seq!['.', 'u', 'r', 'l']
}

/// Where a pane keeps its last address: `instances/{hash:016x}-{instance}.url`
/// under the data directory, the hash naming the pane's space.
pub open spec fn spec_state_path(data: Seq<char>, space: Seq<char>, instance: u64) -> Seq<char> {
    join_path(
        join_path(data, seq!['i', 'n', 's', 't', 'a', 'n', 'c', 'e', 's']),
        state_file_name(space, instance),
    )
}

/// The file that holds the last address of pane `instance` in `space`.
pub fn state_path(data: &str, space: &str, instance: u64) -> (r: String)
    ensures
        r@ == spec_state_path(data@, space@, instance),
{
    let dir_name = ['i', 'n', 's', 't', 'a', 'n', 'c', 'e', 's'];
    let dir = join_to(data, &dir_name);
    let mut name = hex16_of(hash_space(space));
    name.push('-');
    let digits = decimal_of(instance);
    let mut i: usize = 0;
    let ghost start = name@;
    while i < digits.len()
        invariant
            i <= digits@.len(),
            name@ == start + digits@.take(i as int),
        decreases digits@.len() - i,
    {
        name.push(digits[i]);
        assert(digits@.take(i + 1) == digits@.take(i as int).push(digits@[i as int]));
        i = i + 1;
    }
    assert(digits@.take(digits@.len() as int) == digits@);
    name.push('.');
    name.push('u');
    name.push('r');
    name.push('l');
    assert(name@ =~= state_file_name(space@, instance));
    join_to(dir.as_str(), name.as_slice())
}

proof fn lemma_hex_digits_len(h: nat, n: nat)
    ensures
        hex_digits(h, n).len() == n,
    decreases n,
{
    if n > 0 {
        lemma_hex_digits_len(h / 16, (n - 1) as nat);
    }
}

pub open spec fn pow16(n: nat) -> nat
    decreases n,
{
    if n == 0 {
        1
    } else {
        16 * pow16((n - 1) as nat)
    }
}

proof fn lemma_hex_digits_injective(a: nat, b: nat, n: nat)
    requires
        a < pow16(n),
        b < pow16(n),
        hex_digits(a, n) == hex_digits(b, n),
    ensures
        a == b,
    decreases n,
{
    if n > 0 {
        let da = hex_digits(a, n);
        let db = hex_digits(b, n);
        assert(da.last() == db.last());
        assert(hex_char((a % 16) as int) == hex_char((b % 16) as int));
        assert(a % 16 == b % 16);
        assert(da.drop_last() =~= hex_digits(a / 16, (n - 1) as nat));
        assert(db.drop_last() =~= hex_digits(b / 16, (n - 1) as nat));
        lemma_hex_digits_injective(a / 16, b / 16, (n - 1) as nat);
    }
}

proof fn lemma_decimal_len(n: nat)
    ensures
        decimal(n).len() >= 1,
        n >= 10 ==> decimal(n).len() >= 2,
    decreases n,
{
    if n >= 10 {
        lemma_decimal_len(n / 10);
    }
}

proof fn lemma_decimal_injective(a: nat, b: nat)
    requires
        decimal(a) == decimal(b),
    ensures
        a == b,
    decreases a,
{
    lemma_decimal_len(a);
    lemma_decimal_len(b);
    let da = decimal(a);
    let db = decimal(b);
    if a < 10 && b < 10 {
        assert(da[0] == db[0]);
    } else if a >= 10 && b >= 10 {
        assert(da.last() == db.last());
        assert(a % 10 == b % 10);
        assert(da.drop_last() =~= decimal(a / 10));
        assert(db.drop_last() =~= decimal(b / 10));
        lemma_decimal_injective(a / 10, b / 10);
    } else {
        assert(da.len() != db.len());
    }
}

proof fn lemma_join_path_injective(base: Seq<char>, x: Seq<char>, y: Seq<char>)
    requires
        join_path(base, x) == join_path(base, y),
    ensures
        x == y,
{
    if base.len() == 0 {
    } else if base.last() == '/' {
        assert((base + x).skip(base.len() as int) =~= x);
        assert((base + y).skip(base.len() as int) =~= y);
    } else {
        let b = base.push('/');
        assert((b + x).skip(b.len() as int) =~= x);
        assert((b + y).skip(b.len() as int) =~= y);
    }
}

/// Panes keep separate saved addresses: two panes' state files differ when
/// their spaces hash differently or their instance ids differ.
pub proof fn lemma_state_paths_are_distinct(
    data: Seq<char>,
    space1: Seq<char>,
    instance1: u64,
    space2: Seq<char>,
    instance2: u64,
)
    requires
        space_hash(space1) != space_hash(space2) || instance1 != instance2,
    ensures
        spec_state_path(data, space1, instance1) != spec_state_path(data, space2, instance2),
{
    if spec_state_path(data, space1, instance1) == spec_state_path(data, space2, instance2) {
        let dir = join_path(data, seq!['i', 'n', 's', 't', 'a', 'n', 'c', 'e', 's']);
        let n1 = state_file_name(space1, instance1);
        let n2 = state_file_name(space2, instance2);
        lemma_join_path_injective(dir, n1, n2);
        let h1 = space_hash(space1);
        let h2 = space_hash(space2);
        lemma_hex_digits_len(h1 as nat, 16);
        lemma_hex_digits_len(h2 as nat, 16);
        assert(n1.take(16) =~= hex16(h1));
        assert(n2.take(16) =~= hex16(h2));
        assert(pow16(16) == 0x1_0000_0000_0000_0000) by {
            reveal_with_fuel(pow16, 17);
        }
        lemma_hex_digits_injective(h1 as nat, h2 as nat, 16);
        let d1 = decimal(instance1 as nat);
        let d2 = decimal(instance2 as nat);
        assert(n1.skip(17) =~= d1 + seq!['.', 'u', 'r', 'l']);
        assert(n2.skip(17) =~= d2 + seq!['.', 'u', 'r', 'l']);
        assert(d1.len() == d2.len());
        assert((d1 + seq!['.', 'u', 'r', 'l']).take(d1.len() as int) =~= d1);
        assert((d2 + seq!['.', 'u', 'r', 'l']).take(d2.len() as int) =~= d2);
        lemma_decimal_injective(instance1 as nat, instance2 as nat);
    }
}

/// The HTML text for one character: `&`, `<`, `>`, `"` and `'` become
/// entities, other characters stay.
pub open spec fn escape_char(c: char) -> Seq<char> {
    if c == '&' {
        seq!['&', 'a', 'm', 'p', ';']
    } else if c == '<' {
        seq!['&', 'l', 't', ';']
    } else if c == '>' {
        seq!['&', 'g', 't', ';']
    } else if c == '"' {
        seq!['&', 'q', 'u', 'o', 't', ';']
    } else if c == '\'' {
        seq!['&', '#', '3', '9', ';']
    } else {
        seq![c]
    }
}

/// `s` with each character replaced by its HTML text.
pub open spec fn escape_text(s: Seq<char>) -> Seq<char>
    decreases s.len(),
{
    if s.len() == 0 {
        seq![]
    } else {
        escape_text(s.drop_last()) + escape_char(s.last())
    }
}

/// The characters that HTML text must not hold raw.
pub open spec fn is_html_special(c: char) -> bool {
    c == '&' || c == '<' || c == '>' || c == '"' || c == '\''
}

fn push_escaped(out: &mut String, c: char)
    ensures
        final(out)@ == old(out)@ + escape_char(c),
{
    if c == '&' {
        out.push('&'); out.push('a'); out.push('m'); out.push('p'); out.push(';');
    } else if c == '<' {
        out.push('&'); out.push('l'); out.push('t'); out.push(';');
    } else if c == '>' {
        out.push('&'); out.push('g'); out.push('t'); out.push(';');
    } else if c == '"' {
        out.push('&'); out.push('q'); out.push('u'); out.push('o'); out.push('t'); out.push(';');
    } else if c == '\'' {
        out.push('&'); out.push('#'); out.push('3'); out.push('9'); out.push(';');
    } else {
        out.push(c);
    }
    assert(final(out)@ =~= old(out)@ + escape_char(c));
}

/// `value` as HTML text: `&`, `<`, `>`, `"` and `'` become entities.
pub fn escape_html(value: &str) -> (r: String)
    ensures
        r@ == escape_text(value@),
{
    let cs = chars_of(value);
    let mut out = String::new();
    let mut i: usize = 0;
    while i < cs.len()
        invariant
            i <= cs@.len(),
            out@ == escape_text(cs@.take(i as int)),
        decreases cs@.len() - i,
    {
        assert(cs@.take(i + 1).drop_last() == cs@.take(i as int));
        push_escaped(&mut out, cs[i]);
        i = i + 1;
    }
    assert(cs@.take(cs@.len() as int) == cs@);
    out
}

/// The five entities that escaping writes.
pub open spec fn is_entity(e: Seq<char>) -> bool {
    e == escape_char('&') || e == escape_char('<') || e == escape_char('>') || e == escape_char('"')
        || e == escape_char('\'')
}

/// Whether one of the five entities starts at index `i` of `s`.
pub open spec fn entity_at(s: Seq<char>, i: int) -> bool {
    ||| i + 4 <= s.len() && is_entity(s.subrange(i, i + 4))
    ||| i + 5 <= s.len() && is_entity(s.subrange(i, i + 5))
    ||| i + 6 <= s.len() && is_entity(s.subrange(i, i + 6))
}

/// Escaped text holds no `<`, `>`, `"` or `'`, and every `&` in it starts
/// one of the five entities; text without those characters is unchanged.
pub proof fn lemma_escape_text(s: Seq<char>)
    ensures
        forall|i: int|
            0 <= i < escape_text(s).len() ==> #[trigger] escape_text(s)[i] != '<'
                && escape_text(s)[i] != '>' && escape_text(s)[i] != '"' && escape_text(s)[i]
                != '\'',
        forall|i: int|
            0 <= i < escape_text(s).len() && #[trigger] escape_text(s)[i] == '&' ==> entity_at(
                escape_text(s),
                i,
            ),
        (forall|i: int| 0 <= i < s.len() ==> !is_html_special(#[trigger] s[i])) ==> escape_text(
            s,
        ) == s,
    decreases s.len(),
{
    if s.len() > 0 {
        let p = s.drop_last();
        lemma_escape_text(p);
        let e = escape_text(p);
        let c = s.last();
        let t = escape_char(c);
        assert forall|i: int| 0 <= i < (e + t).len() implies #[trigger] (e + t)[i] != '<' && (e
            + t)[i] != '>' && (e + t)[i] != '"' && (e + t)[i] != '\'' by {
            if i < e.len() {
                assert((e + t)[i] == e[i]);
            } else {
                assert((e + t)[i] == t[i - e.len()]);
            }
        }
        assert forall|i: int| 0 <= i < (e + t).len() && #[trigger] (e + t)[i] == '&' implies entity_at(
            e + t,
            i,
        ) by {
            if i < e.len() {
                assert((e + t)[i] == e[i]);
                assert(entity_at(e, i));
                if i + 4 <= e.len() {
                    assert((e + t).subrange(i, i + 4) =~= e.subrange(i, i + 4));
                }
                if i + 5 <= e.len() {
                    assert((e + t).subrange(i, i + 5) =~= e.subrange(i, i + 5));
                }
                if i + 6 <= e.len() {
                    assert((e + t).subrange(i, i + 6) =~= e.subrange(i, i + 6));
                }
            } else {
                assert((e + t)[i] == t[i - e.len()]);
                assert(i == e.len());
                assert((e + t).subrange(i, i + t.len()) =~= t);
            }
        }
        if forall|i: int| 0 <= i < s.len() ==> !is_html_special(#[trigger] s[i]) {
            assert(!is_html_special(s[s.len() - 1]));
            assert forall|i: int| 0 <= i < p.len() implies !is_html_special(#[trigger] p[i]) by {
                assert(p[i] == s[i]);
            }
            assert(p.push(c) =~= s);
        }
    }
}

/// `s` with every occurrence of `pat` replaced by `rep`, scanning from the
/// left without overlaps, as `str::replace` does for a non-empty pattern.
pub open spec fn replace_all(s: Seq<char>, pat: Seq<char>, rep: Seq<char>) -> Seq<char>
    decreases s.len(),
{
    if pat.len() == 0 || s.len() < pat.len() {
        s
    } else if s.take(pat.len() as int) == pat {
        rep + replace_all(s.skip(pat.len() as int), pat, rep)
    } else {
        seq![s[0]] + replace_all(s.drop_first(), pat, rep)
    }
}

/// `s` with every occurrence of the non-empty `pat` replaced by `rep`.
pub fn replace_chars(s: &[char], pat: &[char], rep: &[char]) -> (r: Vec<char>)
    requires
        pat@.len() > 0,
    ensures
        r@ == replace_all(s@, pat@, rep@),
{
    let mut out: Vec<char> = Vec::new();
    let mut i: usize = 0;
    assert(s@.skip(0) =~= s@);
    assert(out@ + replace_all(s@, pat@, rep@) =~= replace_all(s@, pat@, rep@));
    while i < s.len()
        invariant
            pat@.len() > 0,
            i <= s@.len(),
            replace_all(s@, pat@, rep@) == out@ + replace_all(s@.skip(i as int), pat@, rep@),
        decreases s@.len() - i,
    {
        let ghost rest = s@.skip(i as int);
        if crate::text::matches_at(s, pat, i) {
            assert(rest.take(pat@.len() as int) =~= s@.subrange(i as int, i + pat@.len()));
            assert(rest.skip(pat@.len() as int) =~= s@.skip(i + pat@.len()));
            let ghost before = out@;
            let mut k: usize = 0;
            while k < rep.len()
                invariant
                    k <= rep@.len(),
                    out@ == before + rep@.take(k as int),
                decreases rep@.len() - k,
            {
                out.push(rep[k]);
                assert(rep@.take(k + 1) == rep@.take(k as int).push(rep@[k as int]));
                k = k + 1;
            }
            assert(rep@.take(rep@.len() as int) == rep@);
            assert(before + rep@ + replace_all(s@.skip(i + pat@.len()), pat@, rep@) =~= out@
                + replace_all(s@.skip(i + pat@.len()), pat@, rep@));
            i = i + pat.len();
        } else {
            proof {
                if rest.len() >= pat@.len() {
                    assert(rest.take(pat@.len() as int) =~= s@.subrange(i as int, i + pat@.len()));
                }
            }
            assert(rest.drop_first() =~= s@.skip(i + 1));
            let ghost before = out@;
            out.push(s[i]);
            assert(before + (seq![s@[i as int]] + replace_all(s@.skip(i + 1), pat@, rep@)) =~= out@
                + replace_all(s@.skip(i + 1), pat@, rep@));
            i = i + 1;
        }
    }
    assert(s@.skip(s@.len() as int) =~= Seq::<char>::empty());
    assert(out@ + Seq::<char>::empty() =~= out@);
    out
}

/// A page that the pane shows itself: the start page, or an error page with a
/// message and the address to retry.
#[derive(Debug, Clone, Copy, PartialEq, Eq)]
pub enum LocalPage<'a> {
    Start,
    Error { message: &'a str, retry: &'a str },
}

/// The body of the error page: the escaped message, and a Retry button that
/// carries the escaped address to retry.
pub open spec fn error_body(message: Seq<char>, retry: Seq<char>) -> Seq<char> {
    ERROR_HEAD@ + escape_text(message) + ERROR_MIDDLE@ + escape_text(retry) + ERROR_TAIL@
}

/// The body of a local page.
pub open spec fn page_body(page: LocalPage) -> Seq<char> {
    match page {
        LocalPage::Start => START_BODY@,
        LocalPage::Error { message, retry } => error_body(message@, retry@),
    }
}

/// The page template, with `__THEME__` replaced by the theme's JSON and then
/// `__BODY__` replaced by `body`.
pub open spec fn fill_template(theme_json: Seq<char>, body: Seq<char>) -> Seq<char> {
    replace_all(replace_all(LOCAL_HTML@, THEME_MARK@, theme_json), BODY_MARK@, body)
}

/// The text of a local page.
pub open spec fn spec_local_page(theme_json: Seq<char>, page: LocalPage) -> Seq<char> {
    fill_template(theme_json, page_body(page))
}

/// The HTML of a local page, styled by the theme whose JSON is `theme_json`.
pub fn local_page(theme_json: &str, page: LocalPage) -> (r: String)
    ensures
        r@ == spec_local_page(theme_json@, page),
{
    let mut body = String::new();
    match page {
        LocalPage::Start => {
            body.push_str(START_BODY);
        },
        LocalPage::Error { message, retry } => {
            body.push_str(ERROR_HEAD);
            let m = escape_html(message);
            body.push_str(m.as_str());
            body.push_str(ERROR_MIDDLE);
            let r = escape_html(retry);
            body.push_str(r.as_str());
            body.push_str(ERROR_TAIL);
        },
    }
    assert(body@ =~= page_body(page));
    let template = chars_of(LOCAL_HTML);
    let theme_mark = chars_of(THEME_MARK);
    let body_mark = chars_of(BODY_MARK);
    let theme = chars_of(theme_json);
    let body_chars = chars_of(body.as_str());
    proof {
        reveal_strlit("__THEME__");
        reveal_strlit("__BODY__");
    }
    let themed = replace_chars(template.as_slice(), theme_mark.as_slice(), theme.as_slice());
    let page_text = replace_chars(themed.as_slice(), body_mark.as_slice(), body_chars.as_slice());
    string_of(page_text.as_slice())
}

/// The address kept in a state file, when it is a web address: the file's
/// text without surrounding white space.
pub open spec fn spec_saved_url(contents: Seq<char>) -> Option<Seq<char>> {
    if spec_is_http_url(trim(contents)) {
        Some(trim(contents))
    } else {
        None
    }
}

/// The address that a state file's `contents` hold, if it is a web address.
pub fn saved_url(contents: &str) -> (r: Option<String>)
    ensures
        match r {
            Some(u) => spec_saved_url(contents@) == Some(u@),
            None => spec_saved_url(contents@) is None,
        },
{
    let cs = chars_of(contents);
    let t = trimmed(cs.as_slice());
    let value = string_of(t.as_slice());
    if is_http_url(value.as_str()) {
        Some(value)
    } else {
        None
    }
}

/// Calls `base64::engine::general_purpose::STANDARD.encode`: the standard
/// alphabet with `=` padding, as `base64_encode` states it.
#[verifier::external_body]
fn encode_base64(bytes: &[u8]) -> (r: String)
    ensures
        r@ == base64_encode(bytes@),
{
    base64::Engine::encode(&base64::engine::general_purpose::STANDARD, bytes)
}

/// A `data:` URL that holds `html`, base64-encoded so that the engine reads no
/// URL delimiters in it.
pub open spec fn spec_html_url(html: Seq<char>) -> Seq<char> {
    DATA_HTML_PREFIX@ + base64_encode(vstd::utf8::encode_utf8(html))
}

/// A page sent as a `data:` URL comes back whole: after the prefix, the URL
/// holds only base64 digits and padding (no `#`, `?` or `%` that a URL would
/// read), and decoding them, then the UTF-8 bytes, gives the page again.
pub proof fn lemma_html_url_round_trip(html: Seq<char>)
    ensures
        spec_html_url(html).take(DATA_HTML_PREFIX@.len() as int) == DATA_HTML_PREFIX@,
        ({
            let encoded = spec_html_url(html).skip(DATA_HTML_PREFIX@.len() as int);
            &&& forall|i: int| 0 <= i < encoded.len() ==> is_base64_symbol(#[trigger] encoded[i])
            &&& vstd::utf8::decode_utf8(base64_decode(encoded)) == html
        }),
{
    let bytes = vstd::utf8::encode_utf8(html);
    let url = spec_html_url(html);
    let n = DATA_HTML_PREFIX@.len() as int;
    assert(url.take(n) =~= DATA_HTML_PREFIX@);
    assert(url.skip(n) =~= base64_encode(bytes));
    lemma_base64_round_trip(bytes);
    vstd::utf8::encode_utf8_decode_utf8(html);
}

/// The `data:` URL that shows `html` in the engine.
pub fn html_url(html: &str) -> (r: String)
    ensures
        r@ == spec_html_url(html@),
{
    let encoded = encode_base64(html.as_bytes());
    let mut url = owned(DATA_HTML_PREFIX);
    url.push_str(encoded.as_str());
    url
}

pub const DATA_HTML_PREFIX: &'static str = "data:text/html;charset=utf-8;base64,";

pub const THEME_MARK: &'static str = "__THEME__";

pub const BODY_MARK: &'static str = "__BODY__";

pub const START_BODY: &'static str = "<div class='globe'>\u{1f30f}</div><h1>Browse the web</h1><p>Enter a URL or search above";

pub const ERROR_HEAD: &'static str = "<div class='globe'>!</div><h1>Page unavailable</h1><p>";

pub const ERROR_MIDDLE: &'static str = "</p><button id='retry' data-address='";

pub const ERROR_TAIL: &'static str = "'>Retry</button>";


/// Script run in every page: reports focus and the pane's keyboard shortcuts.
pub const CONTENT_BRIDGE: &'static str = r#"
(() => {
  const send = (action, value) => window.ipc.postMessage(JSON.stringify({ action, value }));
  addEventListener('pointerdown', () => send('focus'), true);
  addEventListener('keydown', event => {
    const command = navigator.platform.includes('Mac') ? event.metaKey : event.ctrlKey;
    let action = null;
    if (command && event.key.toLowerCase() === 'l') action = 'focus-address';
    else if (command && event.key.toLowerCase() === 'r') action = 'reload';
    else if (event.key === 'Escape') action = 'stop';
    else if (event.altKey && event.key === 'ArrowLeft') action = 'back';
    else if (event.altKey && event.key === 'ArrowRight') action = 'forward';
    else if (event.metaKey && event.key === '[') action = 'back';
    else if (event.metaKey && event.key === ']') action = 'forward';
    if (action) { event.preventDefault(); event.stopPropagation(); send(action); }
  }, true);
})();
"#;

/// Script that selects the focused field's text, or else the page's content.
pub const SELECT_PAGE_CONTENT: &'static str = r#"
(() => {
  let active = document.activeElement;
  while (active?.shadowRoot?.activeElement) active = active.shadowRoot.activeElement;

  if (active instanceof HTMLInputElement || active instanceof HTMLTextAreaElement) {
    try {
      active.select();
      return;
    } catch (_) {}
  }

  if (active instanceof HTMLElement && active.isContentEditable) {
    const range = document.createRange();
    range.selectNodeContents(active);
    const selection = window.getSelection();
    selection.removeAllRanges();
    selection.addRange(range);
    return;
  }

  const range = document.createRange();
  range.selectNodeContents(document.body);
  const selection = window.getSelection();
  selection.removeAllRanges();
  selection.addRange(range);
})();
"#;

/// The template of the pane's local pages.
pub const LOCAL_HTML: &'static str = r#"<!doctype html>
<meta charset="utf-8"><meta name="viewport" content="width=device-width">
<title>Browser</title>
<style>
  :root { --page:#181818;--field:#202020;--border:#393939;--text:#ddd;--muted:#888;--focus:#d97757;--uiFontSize:14px; }
  html { font-size:var(--uiFontSize); } html,body { height:100%;margin:0; } body { display:grid;place-items:center;background:var(--page);color:var(--text);font:.857142857rem/1.45 -apple-system,BlinkMacSystemFont,"Segoe UI",sans-serif; }
  main { max-width:560px;padding:32px;text-align:center; } .globe { color:var(--muted);font-size:2rem;line-height:1;margin-bottom:1rem; } h1 { margin:0 0 .5rem;font-size:1rem;font-weight:600; } p { margin:0;color:var(--muted); } button { margin-top:24px;padding:9px 16px;border:1px solid var(--border);border-radius:8px;background:var(--field);color:var(--text);font:inherit;cursor:pointer; }
</style><main>__BODY__</main>
<script>window.setTheme=t=>{for(const [key,value] of Object.entries(t))document.documentElement.style.setProperty('--'+key,value)};window.setTheme(__THEME__);const retry=document.querySelector('#retry');if(retry)retry.onclick=()=>window.ipc.postMessage(JSON.stringify({action:'navigate',value:retry.dataset.address}));</script>"#;

} // verus!
