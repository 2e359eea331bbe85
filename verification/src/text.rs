//! Text scanning: trimming, splitting, joining and searching.
use vstd::prelude::*;

verus! {

/// `String::push` appends one character at the end of the string.
pub assume_specification[ String::push ](s: &mut String, c: char)
    ensures
        final(s)@ == old(s)@.push(c),
;

/// The sets of characters that trimming removes.
#[derive(Clone, Copy)]
pub enum CharClass {
    /// Unicode `White_Space`.
    White,
    /// Carriage return and line feed.
    LineBreak,
    /// Angle brackets, carriage return and line feed.
    AddressMark,
}

/// The Unicode property `White_Space`.
pub open spec fn is_white(c: char) -> bool {
    let u = c as u32;
    ||| 0x9 <= u <= 0xd
    ||| u == 0x20
    ||| u == 0x85
    ||| u == 0xa0
    ||| u == 0x1680
    ||| 0x2000 <= u <= 0x200a
    ||| u == 0x2028
    ||| u == 0x2029
    ||| u == 0x202f
    ||| u == 0x205f
    ||| u == 0x3000
}

impl CharClass {
    /// Whether `c` belongs to the class.
    pub open spec fn has(self, c: char) -> bool {
        match self {
            CharClass::White => is_white(c),
            CharClass::LineBreak => c == '\r' || c == '\n',
            CharClass::AddressMark => c == '<' || c == '>' || c == '\r' || c == '\n',
        }
    }

    /// Tests whether `c` belongs to the class.
    pub fn contains(&self, c: char) -> (found: bool)
        ensures
            found == self.has(c),
    {
        match self {
            CharClass::White => {
                let u: u32 = c as u32;
                (0x9 <= u && u <= 0xd) || u == 0x20 || u == 0x85 || u == 0xa0 || u == 0x1680
                    || (0x2000 <= u && u <= 0x200a) || u == 0x2028 || u == 0x2029 || u == 0x202f
                    || u == 0x205f || u == 0x3000
            },
            CharClass::LineBreak => c == '\r' || c == '\n',
            CharClass::AddressMark => c == '<' || c == '>' || c == '\r' || c == '\n',
        }
    }
}

/// `s` without its longest prefix of characters of `class`.
pub open spec fn trim_start(s: Seq<char>, class: CharClass) -> Seq<char>
    decreases s.len(),
{
    if s.len() > 0 && class.has(s[0]) {
        trim_start(s.drop_first(), class)
    } else {
        s
    }
}

/// `s` without its longest suffix of characters of `class`.
pub open spec fn trim_end(s: Seq<char>, class: CharClass) -> Seq<char>
    decreases s.len(),
{
    if s.len() > 0 && class.has(s.last()) {
        trim_end(s.drop_last(), class)
    } else {
        s
    }
}

/// `s` trimmed at both ends.
pub open spec fn trim_both(s: Seq<char>, class: CharClass) -> Seq<char> {
    trim_end(trim_start(s, class), class)
}

/// `s` trimmed of white space at both ends.
pub open spec fn trimmed(s: Seq<char>) -> Seq<char> {
    trim_both(s, CharClass::White)
}

/// `s` with every leading copy of `prefix` removed.
pub open spec fn strip_all(s: Seq<char>, prefix: Seq<char>) -> Seq<char>
    decreases s.len(),
{
    if prefix.len() > 0 && prefix.is_prefix_of(s) {
        strip_all(s.skip(prefix.len() as int), prefix)
    } else {
        s
    }
}

/// The pieces of `s` between the occurrences of `sep`; always at least one.
pub open spec fn split(s: Seq<char>, sep: char) -> Seq<Seq<char>>
    decreases s.len(),
{
    if s.len() == 0 {
        seq![Seq::<char>::empty()]
    } else {
        let before = split(s.drop_last(), sep);
        if s.last() == sep {
            before.push(Seq::<char>::empty())
        } else {
            before.drop_last().push(before.last().push(s.last()))
        }
    }
}

/// The maximal runs of characters that are not white space, in order.
pub open spec fn words(s: Seq<char>) -> Seq<Seq<char>>
    decreases s.len(),
{
    if s.len() == 0 {
        Seq::<Seq<char>>::empty()
    } else {
        let before = words(s.drop_last());
        if is_white(s.last()) {
            before
        } else if s.len() == 1 || is_white(s[s.len() - 2]) {
            before.push(seq![s.last()])
        } else {
            before.drop_last().push(before.last().push(s.last()))
        }
    }
}

/// The pieces `parts`, with `sep` between neighbours.
pub open spec fn join(parts: Seq<Seq<char>>, sep: char) -> Seq<char>
    decreases parts.len(),
{
    if parts.len() == 0 {
        Seq::<char>::empty()
    } else if parts.len() == 1 {
        parts[0]
    } else {
        join(parts.drop_last(), sep).push(sep) + parts.last()
    }
}

/// Whether `pattern` stands in `s` at position `at`.
pub open spec fn stands_at(s: Seq<char>, pattern: Seq<char>, at: int) -> bool {
    0 <= at && at + pattern.len() <= s.len() && s.subrange(at, at + pattern.len()) == pattern
}

/// Whether `pattern` occurs somewhere in `s`.
pub open spec fn occurs_in(s: Seq<char>, pattern: Seq<char>) -> bool {
    exists|at: int| stands_at(s, pattern, at)
}

/// The contents of a list of strings.
pub open spec fn texts(list: Seq<String>) -> Seq<Seq<char>> {
    Seq::new(list.len(), |i: int| list[i]@)
}

/// The characters of `s`.
pub fn chars_of(s: &str) -> (chars: Vec<char>)
    ensures
        chars@ == s@,
{
    let mut chars: Vec<char> = Vec::new();
    for c in it: s.chars()
        invariant
            it.seq() == s@,
            chars@ == s@.take(it.index()),
    {
        chars.push(c);
        assert(chars@ == s@.take(it.index() + 1));
    }
    chars
}

/// The string of the characters from position `from` up to `to`.
pub fn string_of(chars: &Vec<char>, from: usize, to: usize) -> (s: String)
    requires
        from <= to <= chars@.len(),
    ensures
        s@ == chars@.subrange(from as int, to as int),
{
    let mut s = String::new();
    let mut i: usize = from;
    while i < to
        invariant
            from <= i <= to <= chars@.len(),
            s@ == chars@.subrange(from as int, i as int),
        decreases to - i,
    {
        s.push(chars[i]);
        i += 1;
        assert(s@ == chars@.subrange(from as int, i as int));
    }
    s
}

/// Compares two texts character by character.
pub fn same_text(a: &str, b: &str) -> (same: bool)
    ensures
        same == (a@ == b@),
{
    let left = chars_of(a);
    let right = chars_of(b);
    if left.len() != right.len() {
        return false;
    }
    let mut i: usize = 0;
    while i < left.len()
        invariant
            left@ == a@,
            right@ == b@,
            left@.len() == right@.len(),
            i <= left@.len(),
            forall|j: int| 0 <= j < i ==> left@[j] == right@[j],
        decreases left@.len() - i,
    {
        if left[i] != right[i] {
            return false;
        }
        i += 1;
    }
    assert(a@ =~= b@);
    true
}

/// A copy of `s` as a string.
pub fn copy_text(s: &str) -> (copy: String)
    ensures
        copy@ == s@,
{
    s.to_owned()
}

/// Removes the characters of `class` at the end of `s`.
pub fn trim_tail(s: &str, class: CharClass) -> (rest: String)
    ensures
        rest@ == trim_end(s@, class),
{
    let chars = chars_of(s);
    let mut to: usize = chars.len();
    assert(chars@.take(to as int) == chars@);
    while to > 0 && class.contains(chars[to - 1])
        invariant
            chars@ == s@,
            to <= chars@.len(),
            trim_end(s@, class) == trim_end(chars@.take(to as int), class),
        decreases to,
    {
        assert(chars@.take(to as int).drop_last() == chars@.take(to - 1));
        to -= 1;
    }
    assert(chars@.take(to as int) == chars@.subrange(0, to as int));
    string_of(&chars, 0, to)
}

/// Removes the characters of `class` at both ends of `s`.
pub fn trim_ends(s: &str, class: CharClass) -> (rest: String)
    ensures
        rest@ == trim_both(s@, class),
{
    let chars = chars_of(s);
    let mut from: usize = 0;
    assert(chars@.skip(0) == chars@);
    while from < chars.len() && class.contains(chars[from])
        invariant
            chars@ == s@,
            from <= chars@.len(),
            trim_start(s@, class) == trim_start(chars@.skip(from as int), class),
        decreases chars@.len() - from,
    {
        assert(chars@.skip(from as int).drop_first() == chars@.skip(from + 1));
        from += 1;
    }
    assert(trim_start(s@, class) == chars@.skip(from as int));
    let mut to: usize = chars.len();
    assert(chars@.subrange(from as int, to as int) == chars@.skip(from as int));
    while to > from && class.contains(chars[to - 1])
        invariant
            chars@ == s@,
            from <= to <= chars@.len(),
            trim_both(s@, class) == trim_end(chars@.subrange(from as int, to as int), class),
        decreases to,
    {
        assert(chars@.subrange(from as int, to as int).drop_last() == chars@.subrange(
            from as int,
            to - 1,
        ));
        to -= 1;
    }
    string_of(&chars, from, to)
}

/// Removes the white space at both ends of `s`.
pub fn trim(s: &str) -> (rest: String)
    ensures
        rest@ == trimmed(s@),
{
    trim_ends(s, CharClass::White)
}

/// Tests whether `pattern` stands in `chars` at position `at`.
fn matches_at(chars: &Vec<char>, pattern: &Vec<char>, at: usize) -> (found: bool)
    requires
        at <= chars@.len(),
    ensures
        found == stands_at(chars@, pattern@, at as int),
{
    let total: usize = chars.len();
    if pattern.len() > total - at {
        return false;
    }
    let mut i: usize = 0;
    while i < pattern.len()
        invariant
            total == chars@.len(),
            at + pattern@.len() <= chars@.len(),
            i <= pattern@.len(),
            forall|j: int| 0 <= j < i ==> chars@[at + j] == pattern@[j],
        decreases pattern@.len() - i,
    {
        if chars[at + i] != pattern[i] {
            assert(chars@.subrange(at as int, at + pattern@.len())[i as int] != pattern@[i as int]);
            return false;
        }
        i += 1;
    }
    assert(chars@.subrange(at as int, at + pattern@.len()) =~= pattern@);
    true
}

/// Removes every leading copy of `prefix` from `s`.
pub fn strip_prefixes(s: &str, prefix: &str) -> (rest: String)
    ensures
        rest@ == strip_all(s@, prefix@),
{
    let chars = chars_of(s);
    let pattern = chars_of(prefix);
    let total: usize = chars.len();
    let mut from: usize = 0;
    assert(chars@.skip(0) == chars@);
    while pattern.len() > 0 && matches_at(&chars, &pattern, from)
        invariant
            chars@ == s@,
            pattern@ == prefix@,
            total == chars@.len(),
            from <= chars@.len(),
            strip_all(s@, prefix@) == strip_all(chars@.skip(from as int), prefix@),
        decreases chars@.len() - from,
    {
        proof {
            let rest = chars@.skip(from as int);
            assert(rest.subrange(0, pattern@.len() as int) == chars@.subrange(
                from as int,
                from + pattern@.len(),
            ));
            assert(prefix@.is_prefix_of(rest));
            assert(rest.skip(prefix@.len() as int) == chars@.skip(from + pattern@.len()));
        }
        from += pattern.len();
    }
    proof {
        let rest = chars@.skip(from as int);
        if prefix@.len() > 0 && prefix@.is_prefix_of(rest) {
            assert(chars@.subrange(from as int, from + pattern@.len()) =~= prefix@);
        }
        assert(rest == chars@.subrange(from as int, chars@.len() as int));
    }
    string_of(&chars, from, total)
}

/// Cuts `s` at every `sep`.
pub fn split_at_char(s: &str, sep: char) -> (pieces: Vec<String>)
    ensures
        texts(pieces@) == split(s@, sep),
        pieces@.len() > 0,
{
    let chars = chars_of(s);
    let mut pieces: Vec<String> = Vec::new();
    let mut current = String::new();
    let mut i: usize = 0;
    assert(texts(pieces@).push(current@) =~= split(chars@.take(0), sep));
    while i < chars.len()
        invariant
            i <= chars@.len(),
            texts(pieces@).push(current@) == split(chars@.take(i as int), sep),
        decreases chars@.len() - i,
    {
        let ghost before = split(chars@.take(i as int), sep);
        let c: char = chars[i];
        proof {
            assert(chars@.take(i + 1).drop_last() == chars@.take(i as int));
            assert(before.drop_last() == texts(pieces@));
        }
        if c == sep {
            let ghost done = pieces@;
            let ghost last = current@;
            pieces.push(current);
            current = String::new();
            assert(texts(pieces@) =~= texts(done).push(last));
        } else {
            current.push(c);
        }
        i += 1;
        assert(texts(pieces@).push(current@) =~= split(chars@.take(i as int), sep));
    }
    assert(chars@.take(i as int) == s@);
    let ghost done = pieces@;
    let ghost last = current@;
    pieces.push(current);
    assert(texts(pieces@) =~= texts(done).push(last));
    pieces
}

/// Cuts `s` into its words.
pub fn split_words(s: &str) -> (list: Vec<String>)
    ensures
        texts(list@) == words(s@),
{
    let chars = chars_of(s);
    let mut list: Vec<String> = Vec::new();
    let mut current = String::new();
    let mut i: usize = 0;
    assert(texts(list@) =~= words(chars@.take(0)));
    while i < chars.len()
        invariant
            i <= chars@.len(),
            current@.len() > 0 <==> i > 0 && !is_white(chars@[i - 1]),
            current@.len() > 0 ==> texts(list@).push(current@) == words(chars@.take(i as int)),
            current@.len() == 0 ==> texts(list@) == words(chars@.take(i as int)),
        decreases chars@.len() - i,
    {
        let c: char = chars[i];
        let white = CharClass::White.contains(c);
        proof {
            assert(chars@.take(i + 1).drop_last() == chars@.take(i as int));
            assert(texts(list@).push(current@).drop_last() == texts(list@));
        }
        if white {
            if !current.as_str().is_empty() {
                let ghost done = list@;
                let ghost last = current@;
                list.push(current);
                current = String::new();
                assert(texts(list@) =~= texts(done).push(last));
            }
        } else {
            assert(current@.len() == 0 ==> current@.push(c) =~= seq![c]);
            current.push(c);
        }
        i += 1;
    }
    assert(chars@.take(i as int) == s@);
    if !current.as_str().is_empty() {
        let ghost done = list@;
        let ghost last = current@;
        list.push(current);
        assert(texts(list@) =~= texts(done).push(last));
    }
    list
}

/// Joins the first `count` pieces with `sep` between neighbours.
pub fn join_first(parts: &Vec<String>, count: usize, sep: char) -> (joined: String)
    requires
        count <= parts@.len(),
    ensures
        joined@ == join(texts(parts@).take(count as int), sep),
{
    let mut joined = String::new();
    let mut i: usize = 0;
    while i < count
        invariant
            i <= count <= parts@.len(),
            joined@ == join(texts(parts@).take(i as int), sep),
        decreases count - i,
    {
        assert(texts(parts@).take(i + 1).drop_last() == texts(parts@).take(i as int));
        if i > 0 {
            joined.push(sep);
        }
        joined.append(parts[i].as_str());
        i += 1;
        assert(joined@ =~= join(texts(parts@).take(i as int), sep));
    }
    joined
}

/// Tests whether `pattern` occurs in `s`.
pub fn has_text(s: &str, pattern: &str) -> (found: bool)
    ensures
        found == occurs_in(s@, pattern@),
{
    let chars = chars_of(s);
    let wanted = chars_of(pattern);
    let mut at: usize = 0;
    loop
        invariant
            chars@ == s@,
            wanted@ == pattern@,
            at <= chars@.len(),
            forall|j: int| 0 <= j < at ==> !stands_at(s@, pattern@, j),
        decreases chars@.len() - at,
    {
        if matches_at(&chars, &wanted, at) {
            return true;
        }
        if at == chars.len() {
            return false;
        }
        at += 1;
    }
}

/// A text has at least one piece.
pub proof fn lemma_split_some(s: Seq<char>, sep: char)
    ensures
        split(s, sep).len() > 0,
    decreases s.len(),
{
    if s.len() > 0 {
        lemma_split_some(s.drop_last(), sep);
    }
}

/// The pieces of two texts with a separator between them are the pieces of the one and of
/// the other.
pub proof fn law_split_concat(a: Seq<char>, b: Seq<char>, sep: char)
    ensures
        split(a.push(sep) + b, sep) == split(a, sep) + split(b, sep),
    decreases b.len(),
{
    if b.len() == 0 {
        assert(a.push(sep) + b =~= a.push(sep));
        assert(a.push(sep).drop_last() =~= a);
        assert(split(a.push(sep), sep) =~= split(a, sep) + split(b, sep));
    } else {
        let whole = a.push(sep) + b;
        law_split_concat(a, b.drop_last(), sep);
        lemma_split_some(b.drop_last(), sep);
        assert(whole.drop_last() =~= a.push(sep) + b.drop_last());
        assert(split(whole, sep) =~= split(a, sep) + split(b, sep));
    }
}

/// Joining the pieces of a text gives the text back.
pub proof fn law_join_split(s: Seq<char>, sep: char)
    ensures
        join(split(s, sep), sep) == s,
    decreases s.len(),
{
    if s.len() == 0 {
        assert(join(split(s, sep), sep) =~= s);
    } else {
        let before = split(s.drop_last(), sep);
        let now = split(s, sep);
        law_join_split(s.drop_last(), sep);
        lemma_split_some(s.drop_last(), sep);
        if s.last() == sep {
            assert(now.drop_last() =~= before);
            assert(join(now, sep) =~= s);
        } else {
            assert(now.drop_last() =~= before.drop_last());
            assert(join(now, sep) =~= join(before, sep).push(s.last()));
            assert(join(now, sep) =~= s);
        }
    }
}

/// No piece contains the separator.
pub proof fn law_pieces_lack_separator(s: Seq<char>, sep: char, piece: int)
    requires
        0 <= piece < split(s, sep).len(),
    ensures
        !split(s, sep)[piece].contains(sep),
    decreases s.len(),
{
    if s.len() > 0 {
        let before = split(s.drop_last(), sep);
        lemma_split_some(s.drop_last(), sep);
        if piece < split(s, sep).len() - 1 {
            law_pieces_lack_separator(s.drop_last(), sep, piece);
        } else if s.last() != sep {
            law_pieces_lack_separator(s.drop_last(), sep, before.len() - 1);
            let last = before.last().push(s.last());
            assert forall|i: int| 0 <= i < last.len() implies last[i] != sep by {
                if i < before.last().len() {
                    assert(before.last().contains(before.last()[i]));
                }
            }
        }
    }
}

/// Joining two lists with the separator between them.
pub proof fn lemma_join_concat(a: Seq<Seq<char>>, b: Seq<Seq<char>>, sep: char)
    requires
        a.len() > 0,
        b.len() > 0,
    ensures
        join(a + b, sep) == join(a, sep).push(sep) + join(b, sep),
    decreases b.len(),
{
    let whole = a + b;
    if b.len() == 1 {
        assert(whole.drop_last() =~= a);
        assert(join(whole, sep) =~= join(a, sep).push(sep) + join(b, sep));
    } else {
        lemma_join_concat(a, b.drop_last(), sep);
        assert(whole.drop_last() =~= a + b.drop_last());
        assert(join(whole, sep) =~= join(a, sep).push(sep) + join(b, sep));
    }
}

/// The first pieces of a text, joined, are the text up to a separator.
pub proof fn law_first_pieces_are_a_prefix(s: Seq<char>, sep: char, count: int)
    requires
        0 < count <= split(s, sep).len(),
    ensures
        ({
            let head = join(split(s, sep).take(count), sep);
            &&& head.is_prefix_of(s)
            &&& count < split(s, sep).len() ==> head.len() < s.len() && s[head.len() as int] == sep
            &&& count == split(s, sep).len() ==> head == s
        }),
{
    let pieces = split(s, sep);
    law_join_split(s, sep);
    if count == pieces.len() {
        assert(pieces.take(count) =~= pieces);
    } else {
        assert(pieces.take(count) + pieces.skip(count) =~= pieces);
        lemma_join_concat(pieces.take(count), pieces.skip(count), sep);
    }
}

/// A text without the separator is its own and only piece.
pub proof fn lemma_split_single(s: Seq<char>, sep: char)
    requires
        !s.contains(sep),
    ensures
        split(s, sep) == seq![s],
    decreases s.len(),
{
    if s.len() > 0 {
        let shorter = s.drop_last();
        assert forall|i: int| 0 <= i < shorter.len() implies shorter[i] != sep by {
            assert(s.contains(s[i]));
        }
        assert(s.contains(s[s.len() - 1]));
        lemma_split_single(shorter, sep);
        assert(shorter.push(s.last()) =~= s);
        assert(split(s, sep) =~= seq![s]);
    } else {
        assert(s =~= Seq::<char>::empty());
        assert(split(s, sep) =~= seq![s]);
    }
}

/// Trimming takes away the line break after a text that does not begin or end with white
/// space, and nothing else.
pub proof fn lemma_trim_line(s: Seq<char>)
    requires
        s.len() > 0,
        !is_white(s[0]),
        !is_white(s.last()),
    ensures
        trimmed(s + "\r\n"@) == s,
{
    reveal_strlit("\r\n");
    let line = s + "\r\n"@;
    assert(line[0] == s[0]);
    assert(trim_start(line, CharClass::White) == line);
    let once = line.drop_last();
    assert(line.last() == '\n');
    assert(once.last() == '\r');
    assert(once.drop_last() =~= s);
    reveal_with_fuel(trim_end, 4);
}

/// A trimmed text does not begin or end with white space.
pub proof fn lemma_trimmed_ends(s: Seq<char>)
    requires
        trimmed(s) == s,
    ensures
        s.len() > 0 ==> !is_white(s[0]) && !is_white(s.last()),
{
    if s.len() > 0 {
        lemma_trim_shortens(s);
    }
}

/// Trimming a text that begins or ends with white space makes it shorter.
proof fn lemma_trim_shortens(s: Seq<char>)
    requires
        s.len() > 0,
    ensures
        trimmed(s).len() <= s.len(),
        is_white(s[0]) || is_white(s.last()) ==> trimmed(s).len() < s.len(),
{
    let head = trim_start(s, CharClass::White);
    lemma_trim_start_length(s);
    lemma_trim_end_length(head);
    if is_white(s[0]) {
        lemma_trim_start_length(s.drop_first());
    } else if is_white(s.last()) {
        lemma_trim_end_length(s.drop_last());
    }
}

proof fn lemma_trim_start_length(s: Seq<char>)
    ensures
        trim_start(s, CharClass::White).len() <= s.len(),
    decreases s.len(),
{
    if s.len() > 0 && is_white(s[0]) {
        lemma_trim_start_length(s.drop_first());
    }
}

proof fn lemma_trim_end_length(s: Seq<char>)
    ensures
        trim_end(s, CharClass::White).len() <= s.len(),
    decreases s.len(),
{
    if s.len() > 0 && is_white(s.last()) {
        lemma_trim_end_length(s.drop_last());
    }
}

/// Whether a text has no white space in it.
pub open spec fn solid(s: Seq<char>) -> bool {
    forall|i: int| 0 <= i < s.len() ==> !is_white(#[trigger] s[i])
}

/// A text without white space stays as it is when it is trimmed, and has no spaces.
pub proof fn lemma_solid(s: Seq<char>)
    requires
        solid(s),
    ensures
        trimmed(s) == s,
        !s.contains(' '),
{
    if s.len() > 0 {
        assert(!is_white(s[0]));
        assert(!is_white(s[s.len() - 1]));
    }
    assert(is_white(' '));
}

/// The words of a text that begins with white space, a word, and then nothing or white space.
pub proof fn lemma_first_word(lead: Seq<char>, word: Seq<char>, rest: Seq<char>)
    requires
        forall|i: int| 0 <= i < lead.len() ==> is_white(#[trigger] lead[i]),
        solid(word),
        word.len() > 0,
        rest.len() > 0 ==> is_white(rest[0]),
    ensures
        words(lead + word + rest) == seq![word] + words(rest),
    decreases rest.len(),
{
    let whole = lead + word + rest;
    if rest.len() == 0 {
        assert(whole =~= lead + word);
        lemma_lone_word(lead, word);
        assert(seq![word] + words(rest) =~= seq![word]);
    } else {
        let shorter = rest.drop_last();
        lemma_first_word(lead, word, shorter);
        assert(whole.drop_last() =~= lead + word + shorter);
        assert(whole.last() == rest.last());
        if rest.len() == 1 {
            assert(words(shorter) =~= Seq::<Seq<char>>::empty());
            assert(words(rest) =~= Seq::<Seq<char>>::empty());
        } else {
            assert(whole[whole.len() - 2] == rest[rest.len() - 2]);
            if !is_white(rest.last()) && !is_white(rest[rest.len() - 2]) {
                lemma_words_some(shorter);
                assert(words(whole) =~= seq![word] + words(rest));
            } else {
                assert(words(whole) =~= seq![word] + words(rest));
            }
        }
    }
}

/// A text that does not end with white space has a word.
proof fn lemma_words_some(s: Seq<char>)
    requires
        s.len() > 0,
        !is_white(s.last()),
    ensures
        words(s).len() > 0,
{
}

/// The words of white space with one word behind it.
proof fn lemma_lone_word(lead: Seq<char>, word: Seq<char>)
    requires
        forall|i: int| 0 <= i < lead.len() ==> is_white(#[trigger] lead[i]),
        solid(word),
    ensures
        words(lead + word) == (if word.len() > 0 {
            seq![word]
        } else {
            Seq::empty()
        }),
    decreases lead.len() + word.len(),
{
    let whole = lead + word;
    if word.len() > 0 {
        let shorter = word.drop_last();
        assert forall|i: int| 0 <= i < shorter.len() implies !is_white(#[trigger] shorter[i]) by {
            assert(!is_white(word[i]));
        }
        lemma_lone_word(lead, shorter);
        assert(whole.drop_last() =~= lead + shorter);
        assert(whole.last() == word[word.len() - 1]);
        if word.len() > 1 {
            assert(whole[whole.len() - 2] == word[word.len() - 2]);
            assert(shorter.push(word.last()) =~= word);
        } else {
            if lead.len() > 0 {
                assert(whole[whole.len() - 2] == lead[lead.len() - 1]);
            }
            assert(seq![whole.last()] =~= word);
        }
        assert(words(whole) =~= seq![word]);
    } else if lead.len() > 0 {
        let shorter = lead.drop_last();
        assert forall|i: int| 0 <= i < shorter.len() implies is_white(#[trigger] shorter[i]) by {
            assert(is_white(lead[i]));
        }
        lemma_lone_word(shorter, word);
        assert(whole.drop_last() =~= shorter + word);
        assert(whole.last() == lead[lead.len() - 1]);
    } else {
        assert(whole =~= Seq::<char>::empty());
    }
}

/// White space is what Unicode counts as white space, line breaks are carriage return and line
/// feed, and the marks around an address are those and the angle brackets.
pub proof fn law_character_classes(c: char)
    ensures
        is_white(c) <==> seq![
            0x9u32,
            0xau32,
            0xbu32,
            0xcu32,
            0xdu32,
            0x20u32,
            0x85u32,
            0xa0u32,
            0x1680u32,
            0x2000u32,
            0x2001u32,
            0x2002u32,
            0x2003u32,
            0x2004u32,
            0x2005u32,
            0x2006u32,
            0x2007u32,
            0x2008u32,
            0x2009u32,
            0x200au32,
            0x2028u32,
            0x2029u32,
            0x202fu32,
            0x205fu32,
            0x3000u32,
        ].contains(c as u32),
        CharClass::White.has(c) <==> is_white(c),
        CharClass::LineBreak.has(c) <==> seq!['\r', '\n'].contains(c),
        CharClass::AddressMark.has(c) <==> seq!['<', '>', '\r', '\n'].contains(c),
{
    let table = seq![
        0x9u32,
        0xau32,
        0xbu32,
        0xcu32,
        0xdu32,
        0x20u32,
        0x85u32,
        0xa0u32,
        0x1680u32,
        0x2000u32,
        0x2001u32,
        0x2002u32,
        0x2003u32,
        0x2004u32,
        0x2005u32,
        0x2006u32,
        0x2007u32,
        0x2008u32,
        0x2009u32,
        0x200au32,
        0x2028u32,
        0x2029u32,
        0x202fu32,
        0x205fu32,
        0x3000u32,
    ];
    let u = c as u32;
    if is_white(c) {
        let at: int = if u <= 0xd {
            u - 0x9
        } else if u == 0x20 {
            5
        } else if u == 0x85 {
            6
        } else if u == 0xa0 {
            7
        } else if u == 0x1680 {
            8
        } else if u <= 0x200a {
            9 + (u - 0x2000)
        } else if u == 0x2028 {
            20
        } else if u == 0x2029 {
            21
        } else if u == 0x202f {
            22
        } else if u == 0x205f {
            23
        } else {
            24
        };
        assert(table[at] == u);
    }
    let breaks = seq!['\r', '\n'];
    assert(breaks[0] == '\r' && breaks[1] == '\n');
    let marks = seq!['<', '>', '\r', '\n'];
    assert(marks[0] == '<' && marks[1] == '>' && marks[2] == '\r' && marks[3] == '\n');
}

/// Characters of the class in front of a text are taken away with it.
pub proof fn lemma_trim_lead(lead: Seq<char>, rest: Seq<char>, class: CharClass)
    requires
        forall|i: int| 0 <= i < lead.len() ==> class.has(#[trigger] lead[i]),
    ensures
        trim_start(lead + rest, class) == trim_start(rest, class),
    decreases lead.len(),
{
    let whole = lead + rest;
    if lead.len() == 0 {
        assert(whole =~= rest);
    } else {
        let shorter = lead.drop_first();
        assert forall|i: int| 0 <= i < shorter.len() implies class.has(#[trigger] shorter[i]) by {
            assert(class.has(lead[i + 1]));
        }
        assert(whole[0] == lead[0]);
        assert(whole.drop_first() =~= shorter + rest);
        lemma_trim_lead(shorter, rest, class);
    }
}

/// Characters of the class behind a text are taken away with it.
pub proof fn lemma_trim_tail(rest: Seq<char>, tail: Seq<char>, class: CharClass)
    requires
        forall|i: int| 0 <= i < tail.len() ==> class.has(#[trigger] tail[i]),
    ensures
        trim_end(rest + tail, class) == trim_end(rest, class),
    decreases tail.len(),
{
    let whole = rest + tail;
    if tail.len() == 0 {
        assert(whole =~= rest);
    } else {
        let shorter = tail.drop_last();
        assert forall|i: int| 0 <= i < shorter.len() implies class.has(#[trigger] shorter[i]) by {
            assert(class.has(tail[i]));
        }
        assert(class.has(tail[tail.len() - 1]));
        assert(whole.last() == tail[tail.len() - 1]);
        assert(whole.drop_last() =~= rest + shorter);
        lemma_trim_tail(rest, shorter, class);
    }
}

/// Trimming takes away exactly the characters of the class at the ends of a text: all in front
/// of the first and behind the last character that is not of the class, and nothing in between.
pub proof fn law_trimming_bares_the_core(
    lead: Seq<char>,
    core: Seq<char>,
    tail: Seq<char>,
    class: CharClass,
)
    requires
        forall|i: int| 0 <= i < lead.len() ==> class.has(#[trigger] lead[i]),
        forall|i: int| 0 <= i < tail.len() ==> class.has(#[trigger] tail[i]),
        core.len() > 0 ==> !class.has(core[0]) && !class.has(core.last()),
    ensures
        trim_both(lead + core + tail, class) == core,
        trim_start(lead + core, class) == core,
        trim_end(core + tail, class) == core,
        class is White ==> trimmed(lead + core + tail) == core,
{
    lemma_trim_lead(lead, core, class);
    lemma_trim_tail(core, tail, class);
    assert(lead + core + tail =~= lead + (core + tail));
    lemma_trim_lead(lead, core + tail, class);
    if core.len() > 0 {
        assert((core + tail)[0] == core[0]);
    } else {
        assert(core + tail =~= tail + core);
        lemma_trim_lead(tail, core, class);
        assert(core =~= Seq::<char>::empty());
    }
}

/// A text is trimmed at its end as far as its last character that is not of the class, whatever
/// it begins with.
pub proof fn law_trimming_the_end(core: Seq<char>, tail: Seq<char>, class: CharClass)
    requires
        forall|i: int| 0 <= i < tail.len() ==> class.has(#[trigger] tail[i]),
        core.len() > 0 ==> !class.has(core.last()),
    ensures
        trim_end(core + tail, class) == core,
{
    lemma_trim_tail(core, tail, class);
}

/// Every leading copy of a prefix is stripped, and nothing of a text that does not begin with
/// it.
pub proof fn law_prefixes_are_stripped(prefix: Seq<char>, rest: Seq<char>)
    requires
        prefix.len() > 0,
    ensures
        strip_all(prefix + rest, prefix) == strip_all(rest, prefix),
        !prefix.is_prefix_of(rest) ==> strip_all(rest, prefix) == rest,
{
    let whole = prefix + rest;
    assert(prefix.is_prefix_of(whole)) by {
        assert(whole.subrange(0, prefix.len() as int) =~= prefix);
    }
    assert(whole.skip(prefix.len() as int) =~= rest);
}

/// A text has no words where it is white space only, and else its words are the one in front
/// and those of what follows.
pub proof fn law_words_are_parted_by_white_space(
    lead: Seq<char>,
    word: Seq<char>,
    rest: Seq<char>,
)
    requires
        forall|i: int| 0 <= i < lead.len() ==> is_white(#[trigger] lead[i]),
        forall|i: int| 0 <= i < word.len() ==> !is_white(#[trigger] word[i]),
        rest.len() > 0 ==> is_white(rest[0]),
    ensures
        words(lead) == Seq::<Seq<char>>::empty(),
        word.len() > 0 ==> words(lead + word + rest) == seq![word] + words(rest),
{
    lemma_lone_word(lead, Seq::empty());
    assert(lead + Seq::<char>::empty() =~= lead);
    if word.len() > 0 {
        lemma_first_word(lead, word, rest);
    }
}

/// A text is cut at every separator and nowhere else.
pub proof fn law_text_is_cut_at_separators(first: Seq<char>, rest: Seq<char>, sep: char)
    requires
        forall|i: int| 0 <= i < first.len() ==> #[trigger] first[i] != sep,
    ensures
        split(first, sep) == seq![first],
        split(first + seq![sep] + rest, sep) == seq![first] + split(rest, sep),
{
    lemma_split_single(first, sep);
    assert(first + seq![sep] + rest =~= first.push(sep) + rest);
    law_split_concat(first, rest, sep);
}

/// A pattern occurs in a text exactly where the text has it between some beginning and some end.
pub proof fn law_occurrence_is_a_part(
    before: Seq<char>,
    pattern: Seq<char>,
    after: Seq<char>,
    text: Seq<char>,
)
    ensures
        occurs_in(before + pattern + after, pattern),
        occurs_in(text, pattern) ==> exists|at: int|
            0 <= at <= text.len() - pattern.len() && text == #[trigger] text.take(at) + pattern
                + text.skip(at + pattern.len()),
{
    let whole = before + pattern + after;
    assert(whole.subrange(before.len() as int, before.len() as int + pattern.len()) =~= pattern);
    assert(stands_at(whole, pattern, before.len() as int));
    if occurs_in(text, pattern) {
        let at = choose|at: int| stands_at(text, pattern, at);
        assert(text.subrange(at, at + pattern.len()) == pattern);
        assert(text =~= text.take(at) + pattern + text.skip(at + pattern.len()));
    }
}

/// Behind a text that does not end with a character of the class, only what follows is trimmed.
pub proof fn lemma_trim_behind(head: Seq<char>, rest: Seq<char>, class: CharClass)
    requires
        head.len() > 0,
        !class.has(head.last()),
    ensures
        trim_end(head + rest, class) == head + trim_end(rest, class),
    decreases rest.len(),
{
    let whole = head + rest;
    if rest.len() == 0 {
        assert(whole =~= head);
        assert(head + trim_end(rest, class) =~= head);
    } else {
        assert(whole.last() == rest.last());
        assert(whole.drop_last() =~= head + rest.drop_last());
        if class.has(rest.last()) {
            lemma_trim_behind(head, rest.drop_last(), class);
        }
    }
}

/// A text with a character that is not white space is not trimmed away.
pub proof fn lemma_trim_keeps(s: Seq<char>, at: int)
    requires
        0 <= at < s.len(),
        !is_white(s[at]),
    ensures
        trimmed(s).len() > 0,
    decreases s.len(),
{
    if is_white(s[0]) {
        lemma_trim_keeps(s.drop_first(), at - 1);
    } else {
        lemma_trim_behind(seq![s[0]], s.drop_first(), CharClass::White);
        assert(seq![s[0]] + s.drop_first() =~= s);
    }
}

/// What is left of a text trimmed at its end is its beginning.
pub proof fn lemma_trim_end_is_prefix(s: Seq<char>, class: CharClass)
    ensures
        trim_end(s, class).is_prefix_of(s),
    decreases s.len(),
{
    if s.len() > 0 && class.has(s.last()) {
        lemma_trim_end_is_prefix(s.drop_last(), class);
        let left = trim_end(s, class);
        assert(s.take(left.len() as int) =~= s.drop_last().take(left.len() as int));
    }
}

} // verus!
