//! Text handling shared by the collector and the query side: symbols are
//! compared, ordered, split into segments and parsed as sequences of
//! characters.

use vstd::prelude::*;
use vstd::string::*;

verus! {

/// The characters of every text of a list, in order.
pub open spec fn texts(v: Seq<String>) -> Seq<Seq<char>> {
    Seq::new(v.len(), |i: int| v[i]@)
}

/// The code point of a character.
pub open spec fn code_point(c: char) -> int {
    (c as u32) as int
}

/// Strict order of texts by code point, character by character; a proper
/// prefix comes first.
pub open spec fn text_precedes(a: Seq<char>, b: Seq<char>) -> bool
    decreases a.len(),
{
    if b.len() == 0 {
        false
    } else if a.len() == 0 {
        true
    } else if a[0] != b[0] {
        code_point(a[0]) < code_point(b[0])
    } else {
        text_precedes(a.drop_first(), b.drop_first())
    }
}

/// `a` is no later than `b` in the order of texts.
pub open spec fn text_no_later(a: Seq<char>, b: Seq<char>) -> bool {
    !text_precedes(b, a)
}

/// The pieces of `s` between occurrences of `sep`, in order. A text without
/// separator is its own single piece; two adjacent separators enclose an
/// empty piece.
pub open spec fn split(s: Seq<char>, sep: char) -> Seq<Seq<char>>
    decreases s.len(),
{
    if s.len() == 0 {
        seq![Seq::<char>::empty()]
    } else {
        let before = split(s.drop_last(), sep);
        if s.last() == sep {
            before.push(Seq::<char>::empty())
        } else {
            before.drop_last().push(before.last().push(s.last()))
        }
    }
}

/// The pieces joined again, with `sep` between neighbours.
pub open spec fn join(pieces: Seq<Seq<char>>, sep: char) -> Seq<char>
    decreases pieces.len(),
{
    if pieces.len() == 0 {
        Seq::<char>::empty()
    } else if pieces.len() == 1 {
        pieces[0]
    } else {
        join(pieces.drop_last(), sep).push(sep) + pieces.last()
    }
}

/// Where `key` stands last among `keys`, if it stands there at all.
pub open spec fn last_position(keys: Seq<Seq<char>>, key: Seq<char>) -> Option<int>
    decreases keys.len(),
{
    if keys.len() == 0 {
        None
    } else if keys.last() == key {
        Some(keys.len() - 1)
    } else {
        last_position(keys.drop_last(), key)
    }
}

/// Where `key` stands first among `keys`, if it stands there at all.
pub open spec fn first_position(keys: Seq<Seq<char>>, key: Seq<char>) -> Option<int>
    decreases keys.len(),
{
    if keys.len() == 0 {
        None
    } else if keys[0] == key {
        Some(0)
    } else {
        match first_position(keys.drop_first(), key) {
            Some(i) => Some(i + 1),
            None => None,
        }
    }
}

/// Different characters have different code points.
pub proof fn lemma_code_point_injective(c: char, d: char)
    ensures
        code_point(c) == code_point(d) ==> c == d,
{
}

/// The order of texts is irreflexive and total: of two different texts
/// exactly one precedes the other.
pub proof fn lemma_text_order_total(a: Seq<char>, b: Seq<char>)
    ensures
        !(text_precedes(a, b) && text_precedes(b, a)),
        a == b <==> !text_precedes(a, b) && !text_precedes(b, a),
    decreases a.len(),
{
    if a.len() > 0 && b.len() > 0 && a[0] == b[0] {
        lemma_text_order_total(a.drop_first(), b.drop_first());
        if a.drop_first() == b.drop_first() {
            assert(a =~= seq![a[0]] + a.drop_first());
            assert(b =~= seq![b[0]] + b.drop_first());
        }
    } else if a.len() == 0 && b.len() == 0 {
        assert(a =~= b);
    } else if a.len() > 0 && b.len() > 0 {
        lemma_code_point_injective(a[0], b[0]);
    }
}

/// The order of texts is transitive.
pub proof fn lemma_text_order_transitive(a: Seq<char>, b: Seq<char>, c: Seq<char>)
    requires
        text_precedes(a, b),
        text_precedes(b, c),
    ensures
        text_precedes(a, c),
    decreases a.len(),
{
    if a.len() > 0 && a[0] == b[0] && b[0] == c[0] {
        lemma_text_order_transitive(a.drop_first(), b.drop_first(), c.drop_first());
    }
}

/// What holds of three texts in the order of texts: of any two, one is no
/// later than the other; two that are no later than each other are the
/// same; and being no later, or being earlier, carries over the middle one.
pub proof fn lemma_no_later_transitive(a: Seq<char>, b: Seq<char>, c: Seq<char>)
    ensures
        text_no_later(a, b) && text_no_later(b, c) ==> text_no_later(a, c),
        text_precedes(a, b) && text_no_later(b, c) ==> text_precedes(a, c),
        text_no_later(a, b) && text_precedes(b, c) ==> text_precedes(a, c),
        text_no_later(a, b) && text_no_later(b, a) ==> a == b,
        text_no_later(b, c) && text_no_later(c, b) ==> b == c,
        text_precedes(a, b) ==> text_no_later(a, b),
        text_precedes(b, c) ==> text_no_later(b, c),
{
    lemma_text_order_total(a, b);
    lemma_text_order_total(b, c);
    lemma_text_order_total(a, c);
    if text_precedes(a, b) && text_precedes(b, c) {
        lemma_text_order_transitive(a, b, c);
    }
}

/// No piece of a split holds the separator, and joining the pieces with the
/// separator gives the text back.
pub proof fn lemma_split_join(s: Seq<char>, sep: char)
    ensures
        forall|i: int| 0 <= i < split(s, sep).len() ==> !(#[trigger] split(s, sep)[i]).contains(sep),
        join(split(s, sep), sep) == s,
    decreases s.len(),
{
    if s.len() > 0 {
        let before = split(s.drop_last(), sep);
        lemma_split_join(s.drop_last(), sep);
        let now = split(s, sep);
        if s.last() == sep {
            assert(now.drop_last() =~= before);
        } else {
            if before.len() != 1 {
                assert(now.drop_last() =~= before.drop_last());
                assert(join(now, sep) =~= join(before, sep).push(s.last()));
            }
        }
    }
}

/// A text without separator is a single piece.
pub proof fn lemma_split_without_separator(p: Seq<char>, sep: char)
    requires
        !p.contains(sep),
    ensures
        split(p, sep) == seq![p],
    decreases p.len(),
{
    if p.len() == 0 {
        assert(p =~= Seq::<char>::empty());
    } else {
        let init = p.drop_last();
        assert(!init.contains(sep));
        lemma_split_without_separator(init, sep);
        assert(init.push(p.last()) =~= p);
    }
}

/// A separator and a piece after a text add that piece to the text's pieces.
pub proof fn lemma_split_append(a: Seq<char>, p: Seq<char>, sep: char)
    requires
        !p.contains(sep),
    ensures
        split(a.push(sep) + p, sep) == split(a, sep).push(p),
    decreases p.len(),
{
    let s = a.push(sep) + p;
    if p.len() == 0 {
        assert(s.drop_last() =~= a);
        assert(p =~= Seq::<char>::empty());
    } else {
        let init = p.drop_last();
        assert(s.drop_last() =~= a.push(sep) + init);
        lemma_split_append(a, init, sep);
        let before = split(s.drop_last(), sep);
        assert(before.last().push(p.last()) =~= p);
    }
}

/// Pieces without separator, joined by the separator, split into the same pieces.
pub proof fn lemma_split_of_join(pieces: Seq<Seq<char>>, sep: char)
    requires
        pieces.len() >= 1,
        forall|i: int| 0 <= i < pieces.len() ==> !(#[trigger] pieces[i]).contains(sep),
    ensures
        split(join(pieces, sep), sep) == pieces,
    decreases pieces.len(),
{
    if pieces.len() == 1 {
        lemma_split_without_separator(pieces[0], sep);
    } else {
        let init = pieces.drop_last();
        lemma_split_of_join(init, sep);
        lemma_split_append(join(init, sep), pieces.last(), sep);
    }
}

/// The last position of a key is a position that holds the key, and none
/// after it does; there is none exactly if no position holds the key.
pub proof fn lemma_last_position(keys: Seq<Seq<char>>, key: Seq<char>)
    ensures
        match last_position(keys, key) {
            Some(i) => 0 <= i < keys.len() && keys[i] == key && forall|j: int|
                i < j < keys.len() ==> keys[j] != key,
            None => !keys.contains(key),
        },
    decreases keys.len(),
{
    if keys.len() > 0 && keys.last() != key {
        let init = keys.drop_last();
        lemma_last_position(init, key);
        match last_position(init, key) {
            Some(i) => {
                assert forall|j: int| i < j < keys.len() implies keys[j] != key by {
                    if j < init.len() {
                        assert(init[j] == keys[j]);
                    }
                }
            },
            None => {
                if keys.contains(key) {
                    let k = choose|k: int| 0 <= k < keys.len() && keys[k] == key;
                    assert(init[k] == key);
                }
            },
        }
    }
}

/// The first position of a key is a position that holds the key, and none
/// before it does; there is none exactly if no position holds the key.
pub proof fn lemma_first_position(keys: Seq<Seq<char>>, key: Seq<char>)
    ensures
        match first_position(keys, key) {
            Some(i) => 0 <= i < keys.len() && keys[i] == key && forall|j: int|
                0 <= j < i ==> keys[j] != key,
            None => !keys.contains(key),
        },
    decreases keys.len(),
{
    if keys.len() > 0 && keys[0] != key {
        let rest = keys.drop_first();
        lemma_first_position(rest, key);
        match first_position(rest, key) {
            Some(i) => {
                assert forall|j: int| 0 <= j < i + 1 implies keys[j] != key by {
                    if j > 0 {
                        assert(rest[j - 1] == keys[j]);
                    }
                }
            },
            None => {
                if keys.contains(key) {
                    let k = choose|k: int| 0 <= k < keys.len() && keys[k] == key;
                    assert(rest[k - 1] == key);
                }
            },
        }
    }
}

/// The characters of a text.
pub fn chars_of(s: &str) -> (v: Vec<char>)
    ensures
        v@ == s@,
{
    let mut v: Vec<char> = Vec::new();
    for c in it: s.chars()
        invariant
            v@ == it.seq().take(it.index() as int),
            it.seq() == s@,
    {
        v.push(c);
    }
    v
}

/// Whether two texts hold the same characters.
pub fn same_text(a: &String, b: &String) -> (r: bool)
    ensures
        r == (a@ == b@),
{
    *a == *b
}

/// A copy of a text.
pub fn copy_text(s: &String) -> (r: String)
    ensures
        r == *s,
        r@ == s@,
{
    s.clone()
}

/// Copies of the texts, text by text.
pub fn copy_texts(list: &Vec<String>) -> (copies: Vec<String>)
    ensures
        texts(copies@) == texts(list@),
{
    let mut copies: Vec<String> = Vec::new();
    let mut i: usize = 0;
    while i < list.len()
        invariant
            i <= list.len(),
            texts(copies@) == texts(list@).take(i as int),
        decreases list.len() - i,
    {
        let ghost before = texts(copies@);
        copies.push(copy_text(&list[i]));
        assert(texts(copies@) =~= before.push(list@[i as int]@));
        i += 1;
    }
    copies
}

/// Whether some text of `list` holds the same characters as `s`.
pub fn contains_text(list: &Vec<String>, s: &String) -> (r: bool)
    ensures
        r == texts(list@).contains(s@),
{
    let mut i: usize = 0;
    while i < list.len()
        invariant
            i <= list.len(),
            forall|j: int| 0 <= j < i ==> list@[j]@ != s@,
        decreases list.len() - i,
    {
        if same_text(&list[i], s) {
            assert(texts(list@)[i as int] == s@);
            return true;
        }
        i += 1;
    }
    assert(!texts(list@).contains(s@)) by {
        if texts(list@).contains(s@) {
            let k = choose|k: int| 0 <= k < texts(list@).len() && texts(list@)[k] == s@;
            assert(list@[k]@ == s@);
        }
    }
    false
}

/// Whether `a` comes strictly before `b` in the order of texts.
pub fn text_is_before(a: &str, b: &str) -> (r: bool)
    ensures
        r == text_precedes(a@, b@),
{
    let x = chars_of(a);
    let y = chars_of(b);
    let mut i: usize = 0;
    assert(x@.skip(0) =~= x@ && y@.skip(0) =~= y@);
    while i < x.len() && i < y.len()
        invariant
            i <= x.len(),
            i <= y.len(),
            x@ == a@,
            y@ == b@,
            text_precedes(a@, b@) == text_precedes(x@.skip(i as int), y@.skip(i as int)),
        decreases x.len() - i,
    {
        let ghost xs = x@.skip(i as int);
        let ghost ys = y@.skip(i as int);
        let cx: char = x[i];
        let cy: char = y[i];
        if cx != cy {
            return (cx as u32) < (cy as u32);
        }
        assert(xs.drop_first() =~= x@.skip(i + 1));
        assert(ys.drop_first() =~= y@.skip(i + 1));
        i += 1;
    }
    i < y.len()
}

/// Cuts a text at every occurrence of `sep`.
pub fn split_on(s: &str, sep: char) -> (pieces: Vec<String>)
    ensures
        texts(pieces@) == split(s@, sep),
{
    let chars = chars_of(s);
    let mut pieces: Vec<String> = Vec::new();
    let mut start: usize = 0;
    let mut i: usize = 0;
    assert(s@.take(0) =~= Seq::<char>::empty());
    while i < chars.len()
        invariant
            chars@ == s@,
            start <= i <= chars.len(),
            split(s@.take(i as int), sep) == texts(pieces@).push(s@.subrange(start as int, i as int)),
        decreases chars.len() - i,
    {
        let ghost prefix = s@.take(i + 1);
        assert(prefix.drop_last() =~= s@.take(i as int));
        if chars[i] == sep {
            let piece = s.substring_char(start, i).to_owned();
            pieces.push(piece);
            start = i + 1;
            assert(s@.subrange(start as int, i + 1) =~= Seq::<char>::empty());
        } else {
            let ghost before = split(s@.take(i as int), sep);
            assert(before.last().push(s@[i as int]) =~= s@.subrange(start as int, i + 1));
        }
        i += 1;
    }
    assert(s@.take(i as int) =~= s@);
    let piece = s.substring_char(start, i).to_owned();
    pieces.push(piece);
    pieces
}

/// Finds the last text of `keys` that holds the characters of `key`.
pub fn find_last_text(keys: &Vec<String>, key: &String) -> (r: Option<usize>)
    ensures
        match r {
            Some(i) => last_position(texts(keys@), key@) == Some(i as int) && i < keys.len(),
            None => last_position(texts(keys@), key@) is None,
        },
{
    let mut i: usize = keys.len();
    assert(texts(keys@).take(i as int) =~= texts(keys@));
    while i > 0
        invariant
            i <= keys.len(),
            last_position(texts(keys@), key@) == last_position(texts(keys@).take(i as int), key@),
        decreases i,
    {
        let ghost upto = texts(keys@).take(i as int);
        assert(upto.drop_last() =~= texts(keys@).take(i - 1));
        if same_text(&keys[i - 1], key) {
            return Some(i - 1);
        }
        i -= 1;
    }
    None
}

/// Finds the first text of `keys` that holds the characters of `key`.
pub fn find_first_text(keys: &Vec<String>, key: &String) -> (r: Option<usize>)
    ensures
        match r {
            Some(i) => first_position(texts(keys@), key@) == Some(i as int) && i < keys.len(),
            None => first_position(texts(keys@), key@) is None,
        },
{
    let mut i: usize = 0;
    while i < keys.len()
        invariant
            i <= keys.len(),
            forall|j: int| 0 <= j < i ==> texts(keys@)[j] != key@,
        decreases keys.len() - i,
    {
        if same_text(&keys[i], key) {
            proof {
                assert(texts(keys@)[i as int] == key@);
                lemma_first_position(texts(keys@), key@);
            }
            return Some(i);
        }
        i += 1;
    }
    proof {
        lemma_first_position(texts(keys@), key@);
    }
    None
}

} // verus!
