//! Characters and character sequences: white space, trimming, searching and
//! splitting, with the conversions between `str`, `String` and `[char]`.

use vstd::prelude::*;
use vstd::slice::slice_subrange;
use vstd::string::StringExecFns;

verus! {

/// White space is the set of code points with the Unicode property
/// `White_Space`.
pub open spec fn is_space(c: char) -> bool {
    let u = c as u32;
    ||| 0x09 <= u <= 0x0D
    ||| u == 0x20
    ||| u == 0x85
    ||| u == 0xA0
    ||| u == 0x1680
    ||| 0x2000 <= u <= 0x200A
    ||| u == 0x2028
    ||| u == 0x2029
    ||| u == 0x202F
    ||| u == 0x205F
    ||| u == 0x3000
}

/// `s` without its leading white space.
pub open spec fn trim_start(s: Seq<char>) -> Seq<char>
    decreases s.len(),
{
    if s.len() > 0 && is_space(s[0]) {
        trim_start(s.drop_first())
    } else {
        s
    }
}

/// `s` without its trailing white space.
pub open spec fn trim_end(s: Seq<char>) -> Seq<char>
    decreases s.len(),
{
    if s.len() > 0 && is_space(s.last()) {
        trim_end(s.drop_last())
    } else {
        s
    }
}

/// `s` without its leading and trailing white space.
pub open spec fn trim(s: Seq<char>) -> Seq<char> {
    trim_end(trim_start(s))
}

/// Whether `s` holds nothing but white space.
pub open spec fn all_space(s: Seq<char>) -> bool {
    forall|i: int| 0 <= i < s.len() ==> is_space(#[trigger] s[i])
}

/// Whether `s` is trimmed: it neither starts nor ends with white space.
pub open spec fn trimmed(s: Seq<char>) -> bool {
    s.len() > 0 ==> !is_space(s.first()) && !is_space(s.last())
}

/// Position of the first `c` in `s`, or `s.len()` when `s` holds no `c`.
pub open spec fn first_index(s: Seq<char>, c: char) -> nat
    decreases s.len(),
{
    if s.len() == 0 || s[0] == c {
        0
    } else {
        1 + first_index(s.drop_first(), c)
    }
}

/// The pieces of `s` between occurrences of `sep`, in order. There is always
/// at least one piece, and a piece is empty where two separators meet or
/// where `s` starts or ends with one.
pub open spec fn split(s: Seq<char>, sep: char) -> Seq<Seq<char>>
    decreases s.len(),
{
    let n = first_index(s, sep) as int;
    if n >= s.len() {
        seq![s]
    } else {
        seq![s.take(n)] + split(s.skip(n + 1), sep)
    }
}

/// The pieces of `parts` in order, with one `sep` between each two.
pub open spec fn join(parts: Seq<Seq<char>>, sep: char) -> Seq<char>
    decreases parts.len(),
{
    if parts.len() == 0 {
        Seq::empty()
    } else if parts.len() == 1 {
        parts[0]
    } else {
        parts[0] + seq![sep] + join(parts.drop_first(), sep)
    }
}

/// The views of the items of `items`, in order.
pub open spec fn views<T: View>(items: Seq<T>) -> Seq<T::V> {
    items.map_values(|item: T| item@)
}

/// `first_index` is the one position that holds `c` with no `c` before it,
/// or the length where there is none.
pub proof fn lemma_first_index(s: Seq<char>, c: char, i: int)
    requires
        0 <= i <= s.len(),
        forall|j: int| 0 <= j < i ==> s[j] != c,
        i < s.len() ==> s[i] == c,
    ensures
        first_index(s, c) == i,
    decreases s.len(),
{
    if i > 0 {
        let rest = s.drop_first();
        assert forall|j: int| 0 <= j < i - 1 implies rest[j] != c by {
            assert(rest[j] == s[j + 1]);
        }
        lemma_first_index(rest, c, i - 1);
    }
}

/// What `first_index` finds: a position within bounds that holds `c` if any
/// position does, with no `c` before it.
pub proof fn lemma_first_index_found(s: Seq<char>, c: char)
    ensures
        first_index(s, c) <= s.len(),
        first_index(s, c) < s.len() ==> s[first_index(s, c) as int] == c,
        forall|j: int| 0 <= j < first_index(s, c) ==> s[j] != c,
        first_index(s, c) < s.len() <==> s.contains(c),
    decreases s.len(),
{
    if s.len() == 0 || s[0] == c {
        if s.len() > 0 {
            assert(s.contains(c));
        }
    } else {
        let rest = s.drop_first();
        lemma_first_index_found(rest, c);
        let n = first_index(rest, c) as int;
        assert forall|j: int| 0 <= j < first_index(s, c) implies s[j] != c by {
            if j > 0 {
                assert(s[j] == rest[j - 1]);
            }
        }
        if n < rest.len() {
            assert(s[n + 1] == rest[n]);
            assert(s.contains(c));
        }
        if s.contains(c) {
            let k = choose|k: int| 0 <= k < s.len() && s[k] == c;
            assert(rest[k - 1] == c);
            assert(rest.contains(c));
        }
    }
}

/// What `trim_start` takes away is white space, and what it leaves does not
/// start with white space.
pub proof fn lemma_trim_start(s: Seq<char>) -> (lead: Seq<char>)
    ensures
        s == lead + trim_start(s),
        all_space(lead),
        trim_start(s).len() > 0 ==> !is_space(trim_start(s).first()),
    decreases s.len(),
{
    if s.len() > 0 && is_space(s[0]) {
        let rest = lemma_trim_start(s.drop_first());
        let lead = seq![s[0]] + rest;
        assert(s =~= seq![s[0]] + s.drop_first());
        assert(seq![s[0]] + (rest + trim_start(s)) =~= lead + trim_start(s));
        lead
    } else {
        let lead = Seq::<char>::empty();
        assert(s =~= lead + trim_start(s));
        lead
    }
}

/// What `trim_end` takes away is white space, and what it leaves does not
/// end with white space.
pub proof fn lemma_trim_end(s: Seq<char>) -> (trail: Seq<char>)
    ensures
        s == trim_end(s) + trail,
        all_space(trail),
        trim_end(s).len() > 0 ==> !is_space(trim_end(s).last()),
        trim_end(s).len() > 0 ==> trim_end(s).first() == s.first(),
    decreases s.len(),
{
    if s.len() > 0 && is_space(s.last()) {
        let rest = lemma_trim_end(s.drop_last());
        let trail = rest + seq![s.last()];
        assert(s =~= s.drop_last() + seq![s.last()]);
        assert((trim_end(s) + rest) + seq![s.last()] =~= trim_end(s) + trail);
        if trim_end(s).len() > 0 {
            assert(s.drop_last().first() == s.first());
        }
        trail
    } else {
        let trail = Seq::<char>::empty();
        assert(s =~= trim_end(s) + trail);
        trail
    }
}

/// Trimming takes white space away from both ends and nothing else, and
/// leaves a text that is trimmed.
pub proof fn lemma_trim(s: Seq<char>) -> (around: (Seq<char>, Seq<char>))
    ensures
        s == around.0 + trim(s) + around.1,
        all_space(around.0),
        all_space(around.1),
        trimmed(trim(s)),
{
    let lead = lemma_trim_start(s);
    let trail = lemma_trim_end(trim_start(s));
    assert(s =~= lead + trim(s) + trail);
    (lead, trail)
}

/// A trimmed text with white space around it is what trimming gives back.
pub proof fn lemma_trim_padded(lead: Seq<char>, core: Seq<char>, trail: Seq<char>)
    requires
        all_space(lead),
        all_space(trail),
        trimmed(core),
    ensures
        trim(lead + core + trail) == core,
    decreases lead.len() + trail.len(),
{
    let s = lead + core + trail;
    if lead.len() > 0 {
        assert(s[0] == lead[0]);
        assert(s.drop_first() =~= lead.drop_first() + core + trail);
        assert(all_space(lead.drop_first())) by {
            assert forall|i: int| 0 <= i < lead.drop_first().len() implies is_space(
                #[trigger] lead.drop_first()[i],
            ) by {
                assert(lead.drop_first()[i] == lead[i + 1]);
            }
        }
        lemma_trim_padded(lead.drop_first(), core, trail);
    } else if trail.len() > 0 {
        assert(s =~= core + trail);
        assert(all_space(trail.drop_last())) by {
            assert forall|i: int| 0 <= i < trail.drop_last().len() implies is_space(
                #[trigger] trail.drop_last()[i],
            ) by {
                assert(trail.drop_last()[i] == trail[i]);
            }
        }
        lemma_trim_padded(lead, core, trail.drop_last());
        let shorter = lead + core + trail.drop_last();
        assert(shorter =~= core + trail.drop_last());
        assert(s.last() == trail.last());
        assert(s.drop_last() =~= shorter);
        if core.len() > 0 {
            assert(s[0] == core[0]);
            assert(trim_start(s) == s);
            assert(shorter[0] == core[0]);
            assert(trim_start(shorter) == shorter);
        } else {
            assert(s =~= trail);
            lemma_trim_blank(s);
        }
    } else {
        assert(s =~= core);
        if core.len() > 0 {
            assert(trim_start(core) == core);
            assert(trim_end(core) == core);
        }
    }
}

/// Trimming a text of nothing but white space leaves nothing.
pub proof fn lemma_trim_blank(s: Seq<char>)
    requires
        all_space(s),
    ensures
        trim_start(s) == Seq::<char>::empty(),
        trim(s) == Seq::<char>::empty(),
    decreases s.len(),
{
    if s.len() > 0 {
        assert(is_space(s[0]));
        assert forall|i: int| 0 <= i < s.drop_first().len() implies is_space(
            #[trigger] s.drop_first()[i],
        ) by {
            assert(s.drop_first()[i] == s[i + 1]);
        }
        lemma_trim_blank(s.drop_first());
    } else {
        assert(s =~= Seq::<char>::empty());
    }
}

/// Cutting gives at least one piece, no piece holds the separator, and the
/// pieces joined again are the text that was cut.
pub proof fn lemma_split(s: Seq<char>, sep: char)
    ensures
        split(s, sep).len() > 0,
        forall|i: int| 0 <= i < split(s, sep).len() ==> !(#[trigger] split(s, sep)[i]).contains(sep),
        join(split(s, sep), sep) == s,
    decreases s.len(),
{
    let n = first_index(s, sep) as int;
    lemma_first_index_found(s, sep);
    if n < s.len() {
        let piece = s.take(n);
        let rest = s.skip(n + 1);
        let pieces = split(s, sep);
        lemma_split(rest, sep);
        assert(!piece.contains(sep)) by {
            if piece.contains(sep) {
                let k = choose|k: int| 0 <= k < piece.len() && piece[k] == sep;
                assert(s[k] == sep);
            }
        }
        assert forall|i: int| 0 <= i < pieces.len() implies !(#[trigger] pieces[i]).contains(
            sep,
        ) by {
            if i > 0 {
                assert(pieces[i] == split(rest, sep)[i - 1]);
            }
        }
        assert(pieces.drop_first() =~= split(rest, sep));
        assert(piece + seq![sep] + rest =~= s);
    }
}

/// A `sep` between two texts parts their pieces: those of the first text are
/// followed by those of the second.
pub proof fn lemma_split_concat(a: Seq<char>, b: Seq<char>, sep: char)
    ensures
        split(a + seq![sep] + b, sep) == split(a, sep) + split(b, sep),
    decreases a.len(),
{
    let whole = a + seq![sep] + b;
    let n = first_index(a, sep) as int;
    lemma_first_index_found(a, sep);
    if n >= a.len() {
        assert forall|j: int| 0 <= j < a.len() implies whole[j] != sep by {
            assert(whole[j] == a[j]);
        }
        lemma_first_index(whole, sep, a.len() as int);
        assert(whole.take(a.len() as int) =~= a);
        assert(whole.skip(a.len() as int + 1) =~= b);
    } else {
        assert forall|j: int| 0 <= j < n implies whole[j] != sep by {
            assert(whole[j] == a[j]);
        }
        assert(whole[n] == a[n]);
        lemma_first_index(whole, sep, n);
        assert(whole.take(n) =~= a.take(n));
        assert(whole.skip(n + 1) =~= a.skip(n + 1) + seq![sep] + b);
        lemma_split_concat(a.skip(n + 1), b, sep);
        assert(seq![a.take(n)] + (split(a.skip(n + 1), sep) + split(b, sep)) =~= (seq![a.take(n)]
            + split(a.skip(n + 1), sep)) + split(b, sep));
    }
}

/// Cutting a text that was joined from pieces gives the pieces back, as
/// long as there is a piece and none of them holds the separator.
pub proof fn lemma_split_join(parts: Seq<Seq<char>>, sep: char)
    requires
        parts.len() > 0,
        forall|i: int| 0 <= i < parts.len() ==> !(#[trigger] parts[i]).contains(sep),
    ensures
        split(join(parts, sep), sep) == parts,
    decreases parts.len(),
{
    lemma_first_index_found(parts[0], sep);
    if parts.len() == 1 {
        assert(split(parts[0], sep) =~= parts);
    } else {
        let rest = parts.drop_first();
        assert forall|i: int| 0 <= i < rest.len() implies !(#[trigger] rest[i]).contains(sep) by {
            assert(rest[i] == parts[i + 1]);
        }
        lemma_split_join(rest, sep);
        lemma_split_concat(parts[0], join(rest, sep), sep);
        assert(seq![parts[0]] + rest =~= parts);
    }
}

/// `String::push` of the standard library: the string afterwards is the
/// string before with `c` added at its end.
pub assume_specification[ String::push ](s: &mut String, c: char)
    ensures
        final(s)@ == old(s)@.push(c),
;

/// The characters of `s`, one item each.
pub fn chars_of(s: &str) -> (v: Vec<char>)
    ensures
        v@ == s@,
{
    let mut v: Vec<char> = Vec::new();
    for c in it: s.chars()
        invariant
            it.seq() == s@,
            v@ == it.seq().take(it.index() as int),
    {
        v.push(c);
    }
    v
}

/// A string made of the characters of `s`.
pub fn string_of(s: &[char]) -> (r: String)
    ensures
        r@ == s@,
{
    let mut r = String::new();
    let mut i: usize = 0;
    while i < s.len()
        invariant
            i <= s.len(),
            r@ == s@.take(i as int),
        decreases s.len() - i,
    {
        r.push(s[i]);
        i += 1;
    }
    r
}

/// Whether two strings hold the same characters.
pub fn same_text(a: &str, b: &str) -> (r: bool)
    ensures
        r == (a@ == b@),
{
    let left = a.to_owned();
    let right = b.to_owned();
    left == right
}

/// `a` followed by `b`.
pub fn joined(a: &str, b: &str) -> (r: String)
    ensures
        r@ == a@ + b@,
{
    let mut r = a.to_owned();
    r.append(b);
    r
}

/// Tells white space from the rest.
pub fn is_whitespace(c: char) -> (r: bool)
    ensures
        r == is_space(c),
{
    let u: u32 = c as u32;
    (0x09 <= u && u <= 0x0D) || u == 0x20 || u == 0x85 || u == 0xA0 || u == 0x1680 || (0x2000 <= u
        && u <= 0x200A) || u == 0x2028 || u == 0x2029 || u == 0x202F || u == 0x205F || u == 0x3000
}

/// The part of `s` that is left when leading and trailing white space goes.
pub fn trim_slice<'a>(s: &'a [char]) -> (r: &'a [char])
    ensures
        r@ == trim(s@),
{
    let mut lo: usize = 0;
    assert(s@.skip(0) =~= s@);
    while lo < s.len() && is_whitespace(s[lo])
        invariant
            lo <= s.len(),
            trim_start(s@) == trim_start(s@.skip(lo as int)),
        decreases s.len() - lo,
    {
        assert(s@.skip(lo as int).drop_first() =~= s@.skip(lo + 1));
        lo += 1;
    }
    let mut hi: usize = s.len();
    assert(s@.skip(lo as int) =~= s@.subrange(lo as int, hi as int));
    while hi > lo && is_whitespace(s[hi - 1])
        invariant
            lo <= hi <= s.len(),
            trim(s@) == trim_end(s@.subrange(lo as int, hi as int)),
        decreases hi - lo,
    {
        assert(s@.subrange(lo as int, hi as int).drop_last() =~= s@.subrange(
            lo as int,
            hi - 1,
        ));
        hi -= 1;
    }
    slice_subrange(s, lo, hi)
}

/// Finds the first `c` in `s`.
pub fn find_char(s: &[char], c: char) -> (i: usize)
    ensures
        i == first_index(s@, c),
{
    let mut i: usize = 0;
    while i < s.len() && s[i] != c
        invariant
            i <= s.len(),
            forall|j: int| 0 <= j < i ==> s@[j] != c,
        decreases s.len() - i,
    {
        i += 1;
    }
    proof {
        lemma_first_index(s@, c, i as int);
    }
    i
}

/// Cuts `s` at every `sep`.
pub fn split_slice<'a>(s: &'a [char], sep: char) -> (parts: Vec<&'a [char]>)
    ensures
        views(parts@) == split(s@, sep),
{
    let mut parts: Vec<&'a [char]> = Vec::new();
    let mut start: usize = 0;
    assert(s@.skip(0) =~= s@);
    assert(views(parts@) + split(s@, sep) =~= split(s@, sep));
    loop
        invariant_except_break
            start <= s.len(),
            split(s@, sep) == views(parts@) + split(s@.skip(start as int), sep),
        ensures
            views(parts@) == split(s@, sep),
        decreases s.len() - start,
    {
        let rest = slice_subrange(s, start, s.len());
        let n = find_char(rest, sep);
        let ghost before = views(parts@);
        proof {
            lemma_first_index_found(rest@, sep);
            assert(rest@ =~= s@.skip(start as int));
        }
        if n >= rest.len() {
            parts.push(rest);
            assert(views(parts@) =~= before + seq![rest@]);
            break ;
        }
        let piece = slice_subrange(rest, 0, n);
        parts.push(piece);
        proof {
            assert(piece@ =~= rest@.take(n as int));
            assert(views(parts@) =~= before + seq![piece@]);
            assert(rest@.skip(n + 1) =~= s@.skip(start + n + 1));
            assert(before + (seq![piece@] + split(rest@.skip(n + 1), sep)) =~= (before
                + seq![piece@]) + split(rest@.skip(n + 1), sep));
        }
        start = start + n + 1;
    }
    parts
}

/// Cuts the text `s` at every `sep`.
pub fn split_text(s: &str, sep: char) -> (parts: Vec<String>)
    ensures
        views(parts@) == split(s@, sep),
{
    let chars = chars_of(s);
    let pieces = split_slice(chars.as_slice(), sep);
    let mut parts: Vec<String> = Vec::new();
    let mut i: usize = 0;
    while i < pieces.len()
        invariant
            i <= pieces.len(),
            views(parts@) == views(pieces@).take(i as int),
        decreases pieces.len() - i,
    {
        let ghost before = views(parts@);
        parts.push(string_of(pieces[i]));
        assert(views(parts@) =~= before.push(pieces[i as int]@));
        assert(views(pieces@).take(i + 1) =~= before.push(pieces[i as int]@));
        i += 1;
    }
    assert(views(pieces@).take(i as int) =~= views(pieces@));
    parts
}

} // verus!
