use vstd::prelude::*;
use vstd::string::*;
use vstd::utf8::*;

verus! {

/// The text of every line as a sequence of characters.
pub open spec fn texts(v: Seq<String>) -> Seq<Seq<char>> {
    Seq::new(v.len(), |i: int| v[i]@)
}

/// `pat` occurs in `s` as a run of consecutive characters.
pub open spec fn has_infix(s: Seq<char>, pat: Seq<char>) -> bool {
    exists|k: int| 0 <= k && k + pat.len() <= s.len() && #[trigger] s.subrange(k, k + pat.len()) == pat
}

/// Appends one character: `String::push`, which the standard library documents as
/// appending the given character to the end of the string.
#[verifier::external_body]
pub(crate) fn push_char(s: &mut String, c: char)
    ensures
        final(s)@ == old(s)@.push(c),
{
    s.push(c)
}

/// Number of characters of `s`.
pub fn char_len(s: &String) -> (n: usize)
    ensures
        n == s@.len(),
{
    s.as_str().unicode_len()
}

/// The UTF-8 bytes of a text: columns are offsets into them.
pub open spec fn utf8(s: Seq<char>) -> Seq<u8> {
    encode_utf8(s)
}

/// Number of bytes of a text.
pub open spec fn width(s: Seq<char>) -> int {
    encode_utf8(s).len() as int
}

/// Byte offset `k` starts a character of `s`, or is its end.
pub open spec fn boundary(s: Seq<char>, k: int) -> bool {
    is_char_boundary(encode_utf8(s), k)
}

/// The text whose bytes are those of `s` before offset `k`.
pub open spec fn before(s: Seq<char>, k: int) -> Seq<char> {
    decode_utf8(encode_utf8(s).take(k))
}

/// The text whose bytes are those of `s` from offset `k` on.
pub open spec fn after(s: Seq<char>, k: int) -> Seq<char> {
    decode_utf8(encode_utf8(s).skip(k))
}

/// `c` put in at byte offset `k`: the bytes before `k`, the bytes of `c`, the rest.
pub open spec fn insert_at(s: Seq<char>, k: int, c: char) -> Seq<char> {
    decode_utf8(encode_utf8(s).take(k) + encode_utf8(seq![c]) + encode_utf8(s).skip(k))
}

/// The character starting at byte offset `k` taken out: its bytes go.
pub open spec fn remove_at(s: Seq<char>, k: int) -> Seq<char> {
    decode_utf8(encode_utf8(s).take(k) + pop_first_scalar(encode_utf8(s).skip(k)))
}

/// Encoding a text one piece after another.
pub proof fn lemma_utf8_concat(x: Seq<char>, y: Seq<char>)
    ensures
        encode_utf8(x + y) == encode_utf8(x) + encode_utf8(y),
    decreases x.len(),
{
    if x.len() == 0 {
        assert(x + y =~= y);
        assert(encode_utf8(x) + encode_utf8(y) =~= encode_utf8(y));
    } else {
        lemma_utf8_concat(x.drop_first(), y);
        assert((x + y).drop_first() =~= x.drop_first() + y);
        assert((x + y)[0] == x[0]);
        assert(encode_utf8(x + y) =~= encode_utf8(x) + encode_utf8(y));
    }
}

/// The bytes after the first character of a text are those of the rest of the text.
pub proof fn lemma_utf8_pop_first(x: Seq<char>)
    requires
        x.len() > 0,
    ensures
        pop_first_scalar(encode_utf8(x)) == encode_utf8(x.drop_first()),
        encode_utf8(x).len() == encode_scalar(x[0] as u32).len() + encode_utf8(x.drop_first()).len(),
{
    encode_utf8_first_scalar(x);
    assert(pop_first_scalar(encode_utf8(x)) =~= encode_utf8(x.drop_first()));
}

/// The text of valid bytes read back from them.
pub proof fn lemma_decode_of(x: Seq<char>, b: Seq<u8>)
    requires
        encode_utf8(x) == b,
    ensures
        decode_utf8(b) == x,
{
    encode_utf8_decode_utf8(x);
}

/// A text cut at a character boundary is the text before the cut followed by the text
/// after it.
pub proof fn lemma_cut(s: Seq<char>, k: int)
    requires
        boundary(s, k),
    ensures
        s == before(s, k) + after(s, k),
        encode_utf8(before(s, k)) == utf8(s).take(k),
        encode_utf8(after(s, k)) == utf8(s).skip(k),
        0 <= k <= width(s),
{
    let b = utf8(s);
    encode_utf8_valid_utf8(s);
    encode_utf8_decode_utf8(s);
    if k > b.len() || k < 0 {
        assert(!is_char_boundary(b, k));
    }
    valid_utf8_split(b, k);
    decode_utf8_split(b, k);
    assert(b.subrange(0, k) =~= b.take(k));
    assert(b.subrange(k, b.len() as int) =~= b.skip(k));
    decode_utf8_encode_utf8(b.take(k));
    decode_utf8_encode_utf8(b.skip(k));
}

/// Putting in a character at a boundary puts it between the text before and after.
pub proof fn lemma_insert_at(s: Seq<char>, k: int, c: char)
    requires
        boundary(s, k),
    ensures
        insert_at(s, k, c) == before(s, k) + seq![c] + after(s, k),
{
    lemma_cut(s, k);
    lemma_utf8_concat(before(s, k), seq![c]);
    lemma_utf8_concat(before(s, k) + seq![c], after(s, k));
    lemma_decode_of(before(s, k) + seq![c] + after(s, k), utf8(s).take(k) + encode_utf8(seq![c]) + utf8(s).skip(k));
}

/// Taking out the character at a boundary leaves the text before it and the rest after it.
pub proof fn lemma_remove_at(s: Seq<char>, k: int)
    requires
        boundary(s, k),
        k < width(s),
    ensures
        after(s, k).len() > 0,
        remove_at(s, k) == before(s, k) + after(s, k).drop_first(),
        remove_at(s, k).len() + 1 == s.len(),
{
    lemma_cut(s, k);
    let a = after(s, k);
    if a.len() == 0 {
        assert(encode_utf8(a) =~= Seq::<u8>::empty());
    }
    lemma_utf8_pop_first(a);
    lemma_utf8_concat(before(s, k), a.drop_first());
    lemma_decode_of(before(s, k) + a.drop_first(), utf8(s).take(k) + pop_first_scalar(utf8(s).skip(k)));
}

/// Taking out the character just put in at a boundary gives back the text.
pub proof fn law_remove_after_insert(s: Seq<char>, k: int, c: char)
    requires
        boundary(s, k),
    ensures
        remove_at(insert_at(s, k, c), k) == s,
{
    lemma_cut(s, k);
    lemma_insert_at(s, k, c);
    let a = before(s, k);
    let z = after(s, k);
    let ins = insert_at(s, k, c);
    lemma_utf8_concat(a, seq![c]);
    lemma_utf8_concat(a + seq![c], z);
    lemma_utf8_concat(seq![c], z);
    let b = utf8(s);
    assert(encode_utf8(ins) == b.take(k) + encode_utf8(seq![c]) + b.skip(k));
    assert(encode_utf8(ins).take(k) =~= b.take(k));
    assert(encode_utf8(ins).skip(k) =~= encode_utf8(seq![c] + z));
    assert((seq![c] + z).drop_first() =~= z);
    lemma_utf8_pop_first(seq![c] + z);
    assert(b.take(k) + b.skip(k) =~= b);
    lemma_decode_of(s, b);
}

/// `a` followed by `b`.
pub fn concatenated(a: &String, b: &String) -> (r: String)
    ensures
        r@ == a@ + b@,
{
    let mut r = a.clone();
    r.append(b.as_str());
    r
}

/// Number of bytes of `s`, as `str::len` gives it.
pub fn byte_len(s: &String) -> (n: usize)
    ensures
        n == width(s@),
{
    s.as_str().as_bytes().len()
}

/// Whether byte offset `k` starts a character of `s` or is its end.
pub fn at_boundary(s: &String, k: usize) -> (b: bool)
    ensures
        b == boundary(s@, k as int),
{
    s.as_str().is_char_boundary(k)
}

/// The bytes of `s` before offset `k`, as `&s[..k]`.
pub fn cut_before(s: &String, k: usize) -> (r: String)
    requires
        boundary(s@, k as int),
    ensures
        r@ == before(s@, k as int),
        encode_utf8(r@) == utf8(s@).take(k as int),
{
    let (a, _b) = s.as_str().split_at(k);
    let r = a.to_owned();
    proof {
        assert(utf8(s@).subrange(0, k as int) =~= utf8(s@).take(k as int));
        lemma_decode_of(r@, utf8(s@).take(k as int));
    }
    r
}

/// The bytes of `s` from offset `k` on, as `&s[k..]`.
pub fn cut_after(s: &String, k: usize) -> (r: String)
    requires
        boundary(s@, k as int),
    ensures
        r@ == after(s@, k as int),
        encode_utf8(r@) == utf8(s@).skip(k as int),
{
    let (_a, b) = s.as_str().split_at(k);
    let r = b.to_owned();
    proof {
        assert(utf8(s@).subrange(k as int, utf8(s@).len() as int) =~= utf8(s@).skip(k as int));
        lemma_decode_of(r@, utf8(s@).skip(k as int));
    }
    r
}

/// `s` with `c` put in at byte offset `k`, as `String::insert`.
pub fn insert_char(s: &String, k: usize, c: char) -> (r: String)
    requires
        boundary(s@, k as int),
    ensures
        r@ == insert_at(s@, k as int, c),
        encode_utf8(r@) == utf8(s@).take(k as int) + encode_utf8(seq![c]) + utf8(s@).skip(k as int),
{
    let (a, b) = s.as_str().split_at(k);
    let mut r = a.to_owned();
    push_char(&mut r, c);
    r.append(b);
    proof {
        let bytes = utf8(s@);
        assert(bytes.subrange(0, k as int) =~= bytes.take(k as int));
        assert(bytes.subrange(k as int, bytes.len() as int) =~= bytes.skip(k as int));
        assert(a@.push(c) =~= a@ + seq![c]);
        lemma_utf8_concat(a@, seq![c]);
        lemma_utf8_concat(a@ + seq![c], b@);
        assert(r@ =~= a@ + seq![c] + b@);
        lemma_decode_of(r@, bytes.take(k as int) + encode_utf8(seq![c]) + bytes.skip(k as int));
    }
    r
}

/// `s` without the character that starts at byte offset `k`, as `String::remove`.
pub fn remove_char(s: &String, k: usize) -> (r: String)
    requires
        boundary(s@, k as int),
        k < width(s@),
    ensures
        r@ == remove_at(s@, k as int),
        encode_utf8(r@) == utf8(s@).take(k as int) + pop_first_scalar(utf8(s@).skip(k as int)),
{
    let (a, b) = s.as_str().split_at(k);
    let n = b.unicode_len();
    proof {
        let bytes = utf8(s@);
        assert(bytes.subrange(k as int, bytes.len() as int) =~= bytes.skip(k as int));
        if b@.len() == 0 {
            assert(encode_utf8(b@) =~= Seq::<u8>::empty());
        }
    }
    let tail = b.substring_char(1, n);
    let mut r = a.to_owned();
    r.append(tail);
    proof {
        let bytes = utf8(s@);
        assert(bytes.subrange(0, k as int) =~= bytes.take(k as int));
        lemma_utf8_pop_first(b@);
        assert(tail@ =~= b@.drop_first());
        lemma_utf8_concat(a@, tail@);
        lemma_decode_of(r@, bytes.take(k as int) + pop_first_scalar(bytes.skip(k as int)));
    }
    r
}

/// The characters of `s`, one per element.
pub fn chars_of(s: &str) -> (v: Vec<char>)
    ensures
        v@ == s@,
{
    let mut v: Vec<char> = Vec::new();
    for c in it: s.chars()
        invariant
            v@ == it.seq().take(it.index() as int),
    {
        v.push(c);
    }
    v
}


/// `pat` occurs in `hay`.
pub fn contains(hay: &String, pat: &String) -> (b: bool)
    ensures
        b == has_infix(hay@, pat@),
{
    let h = chars_of(hay.as_str());
    let p = chars_of(pat.as_str());
    if p.len() > h.len() {
        return false;
    }
    let mut k: usize = 0;
    while p.len() <= h.len() - k
        invariant
            h@ == hay@,
            p@ == pat@,
            k <= h.len(),
            forall|j: int| 0 <= j < k ==> #[trigger] h@.subrange(j, j + p@.len()) != p@,
        decreases h.len() - k,
    {
        let mut i: usize = 0;
        let mut same = true;
        while i < p.len()
            invariant
                h@ == hay@,
                p@ == pat@,
                k + p.len() <= h.len(),
                i <= p.len(),
                same ==> forall|m: int| 0 <= m < i ==> h@[k + m] == p@[m],
                !same ==> h@.subrange(k as int, k + p@.len()) != p@,
                !same ==> p.len() > 0,
            decreases p.len() - i,
        {
            if same && h[k + i] != p[i] {
                same = false;
                assert(h@.subrange(k as int, k + p@.len())[i as int] != p@[i as int]);
            }
            i = i + 1;
        }
        if same {
            assert(h@.subrange(k as int, k + p@.len()) =~= p@);
            return true;
        }
        k = k + 1;
    }
    proof {
        if has_infix(hay@, pat@) {
            let j = choose|j: int| 0 <= j && j + pat@.len() <= hay@.len()
                && #[trigger] hay@.subrange(j, j + pat@.len()) == pat@;
            assert(h@.subrange(j, j + p@.len()) != p@);
        }
    }
    false
}


/// The pieces of `s` between its newline characters, in order, as `str::split('\n')`
/// gives them: there is always one piece more than there are newlines.
pub open spec fn split_newlines(s: Seq<char>) -> Seq<Seq<char>>
    decreases s.len(),
{
    if s.len() == 0 {
        seq![Seq::<char>::empty()]
    } else {
        let front = split_newlines(s.drop_last());
        if s.last() == '\n' {
            front.push(Seq::<char>::empty())
        } else {
            front.update(front.len() - 1, front.last().push(s.last()))
        }
    }
}

/// Every line followed by a newline, one after the other.
pub open spec fn terminated(ls: Seq<Seq<char>>) -> Seq<char>
    decreases ls.len(),
{
    if ls.len() == 0 {
        Seq::<char>::empty()
    } else {
        terminated(ls.drop_last()) + ls.last() + seq!['\n']
    }
}

/// No line holds a newline character.
pub open spec fn single_lines(ls: Seq<Seq<char>>) -> bool {
    forall|i: int| 0 <= i < ls.len() ==> !(#[trigger] ls[i]).contains('\n')
}

pub proof fn lemma_split_nonempty(s: Seq<char>)
    ensures
        split_newlines(s).len() >= 1,
    decreases s.len(),
{
    if s.len() > 0 {
        lemma_split_nonempty(s.drop_last());
    }
}

/// Splitting `content` at its newlines.
pub fn split_newlines_exec(content: &String) -> (pieces: Vec<String>)
    ensures
        texts(pieces@) == split_newlines(content@),
{
    let v = chars_of(content.as_str());
    let mut pieces: Vec<String> = Vec::new();
    let mut cur = String::new();
    let mut i: usize = 0;
    assert(v@.take(0) =~= Seq::<char>::empty());
    assert(texts(pieces@).push(cur@) =~= split_newlines(v@.take(0)));
    while i < v.len()
        invariant
            v@ == content@,
            i <= v.len(),
            texts(pieces@).push(cur@) == split_newlines(v@.take(i as int)),
        decreases v.len() - i,
    {
        let c = v[i];
        proof {
            assert(v@.take(i + 1).drop_last() =~= v@.take(i as int));
            lemma_split_nonempty(v@.take(i as int));
        }
        let ghost before = texts(pieces@);
        if c == '\n' {
            pieces.push(cur);
            cur = String::new();
            assert(texts(pieces@) =~= before.push(pieces@.last()@));
            assert(texts(pieces@).push(cur@) =~= split_newlines(v@.take(i + 1)));
        } else {
            push_char(&mut cur, c);
            assert(texts(pieces@).push(cur@) =~= split_newlines(v@.take(i + 1)));
        }
        i = i + 1;
    }
    assert(v@.take(i as int) =~= v@);
    let ghost before = texts(pieces@);
    pieces.push(cur);
    assert(texts(pieces@) =~= before.push(pieces@.last()@));
    pieces
}

/// Every line followed by a newline: the text that is stored for a note.
pub fn join_terminated(lines: &Vec<String>) -> (content: String)
    ensures
        content@ == terminated(texts(lines@)),
{
    let mut content = String::new();
    let mut i: usize = 0;
    proof {
        reveal_strlit("\n");
    }
    while i < lines.len()
        invariant
            i <= lines.len(),
            content@ == terminated(texts(lines@).take(i as int)),
            "\n"@ == seq!['\n'],
        decreases lines.len() - i,
    {
        content.append(lines[i].as_str());
        content.append("\n");
        assert(texts(lines@).take(i + 1).drop_last() =~= texts(lines@).take(i as int));
        i = i + 1;
    }
    assert(texts(lines@).take(i as int) =~= texts(lines@));
    content
}


proof fn lemma_split_plain_suffix(s: Seq<char>, t: Seq<char>)
    requires
        !t.contains('\n'),
    ensures
        split_newlines(s + t) == split_newlines(s).update(
            split_newlines(s).len() - 1,
            split_newlines(s).last() + t,
        ),
    decreases t.len(),
{
    lemma_split_nonempty(s);
    if t.len() == 0 {
        assert(s + t =~= s);
        assert(split_newlines(s).last() + t =~= split_newlines(s).last());
        assert(split_newlines(s).update(split_newlines(s).len() - 1, split_newlines(s).last())
            =~= split_newlines(s));
    } else {
        let t0 = t.drop_last();
        assert(!t0.contains('\n')) by {
            if t0.contains('\n') {
                let k = choose|k: int| 0 <= k < t0.len() && t0[k] == '\n';
                assert(t[k] == '\n');
            }
        }
        lemma_split_plain_suffix(s, t0);
        assert((s + t).drop_last() =~= s + t0);
        assert(t.last() != '\n') by {
            assert(t[t.len() - 1] == t.last());
        }
        assert(split_newlines(s).last() + t =~= (split_newlines(s).last() + t0).push(t.last()));
        assert(split_newlines(s + t) =~= split_newlines(s).update(
            split_newlines(s).len() - 1,
            split_newlines(s).last() + t,
        ));
    }
}

/// No piece of a text cut at its newlines holds a newline.
pub proof fn law_split_pieces_single(s: Seq<char>)
    ensures
        single_lines(split_newlines(s)),
    decreases s.len(),
{
    if s.len() > 0 {
        let s0 = s.drop_last();
        law_split_pieces_single(s0);
        lemma_split_nonempty(s0);
        let front = split_newlines(s0);
        if s.last() != '\n' {
            let grown = front.last().push(s.last());
            assert(!grown.contains('\n')) by {
                assert(!front[front.len() - 1].contains('\n'));
                if grown.contains('\n') {
                    let k = choose|k: int| 0 <= k < grown.len() && grown[k] == '\n';
                    assert(front.last()[k] == '\n');
                }
            }
            let upd = front.update(front.len() - 1, grown);
            assert forall|i: int| 0 <= i < upd.len() implies !(#[trigger] upd[i]).contains('\n') by {
                if i != front.len() - 1 {
                    assert(upd[i] == front[i]);
                }
            }
        } else {
            let pushed = front.push(Seq::<char>::empty());
            assert forall|i: int| 0 <= i < pushed.len() implies !(#[trigger] pushed[i]).contains('\n') by {
                if i < front.len() {
                    assert(pushed[i] == front[i]);
                }
            }
        }
    }
}

/// Reading back what was stored: splitting the newline-terminated text of lines that hold
/// no newline gives those lines again, followed by one empty line.
pub proof fn law_split_after_join(ls: Seq<Seq<char>>)
    requires
        single_lines(ls),
    ensures
        split_newlines(terminated(ls)) == ls.push(Seq::<char>::empty()),
    decreases ls.len(),
{
    if ls.len() == 0 {
        assert(split_newlines(terminated(ls)) =~= ls.push(Seq::<char>::empty()));
    } else {
        let front = ls.drop_last();
        assert(single_lines(front)) by {
            assert forall|i: int| 0 <= i < front.len() implies !(#[trigger] front[i]).contains('\n') by {
                assert(front[i] == ls[i]);
            }
        }
        law_split_after_join(front);
        let body = terminated(front) + ls.last();
        assert(!ls.last().contains('\n')) by {
            assert(ls[ls.len() - 1] == ls.last());
        }
        lemma_split_plain_suffix(terminated(front), ls.last());
        assert((body + seq!['\n']).drop_last() =~= body);
        assert(split_newlines(terminated(ls)) =~= ls.push(Seq::<char>::empty()));
    }
}

/// Storing what was read: the newline-terminated text of the pieces of `s` is `s`
/// followed by one more newline.
pub proof fn law_join_after_split(s: Seq<char>)
    ensures
        terminated(split_newlines(s)) == s.push('\n'),
    decreases s.len(),
{
    if s.len() == 0 {
        let e = Seq::<char>::empty();
        assert(split_newlines(s) == seq![e]);
        assert(seq![e].drop_last() =~= Seq::<Seq<char>>::empty());
        assert(terminated(seq![e]) == terminated(seq![e].drop_last()) + e + seq!['\n']);
        assert(terminated(split_newlines(s)) =~= s.push('\n'));
    } else {
        let s0 = s.drop_last();
        law_join_after_split(s0);
        lemma_split_nonempty(s0);
        let front = split_newlines(s0);
        if s.last() == '\n' {
            assert(split_newlines(s).drop_last() =~= front);
            assert(terminated(split_newlines(s)) =~= s.push('\n'));
        } else {
            let upd = front.update(front.len() - 1, front.last().push(s.last()));
            assert(upd.drop_last() =~= front.drop_last());
            assert(terminated(front) == terminated(front.drop_last()) + front.last() + seq!['\n']);
            let x = terminated(front.drop_last()) + front.last();
            assert((x + seq!['\n']).drop_last() =~= x);
            assert(s0.push('\n').drop_last() =~= s0);
            assert(upd.last() == front.last().push(s.last()));
            assert(x == s0);
            assert(s =~= s0.push(s.last()));
            assert(split_newlines(s) == upd);
            assert(terminated(upd) == terminated(upd.drop_last()) + upd.last() + seq!['\n']);
            assert(terminated(upd) =~= s.push('\n'));
            assert(terminated(split_newlines(s)) =~= s.push('\n'));
        }
    }
}


/// The stored text of no lines is empty, and adding a line adds its characters followed by
/// one newline: every line ends with exactly one newline, in order.
pub proof fn law_terminated_lines(ls: Seq<Seq<char>>, l: Seq<char>)
    ensures
        terminated(Seq::<Seq<char>>::empty()) == Seq::<char>::empty(),
        terminated(ls.push(l)) == terminated(ls) + l + seq!['\n'],
        terminated(ls.push(l)).len() == terminated(ls).len() + l.len() + 1,
        terminated(ls.push(l)).last() == '\n',
{
    assert(ls.push(l).drop_last() =~= ls);
}

} // verus!
