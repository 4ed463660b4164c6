use vstd::prelude::*;
use vstd::string::*;

verus! {

/// The character of a decimal digit.
pub open spec fn digit_char(d: nat) -> char {
    if d == 0 {
        '0'
    } else if d == 1 {
        '1'
    } else if d == 2 {
        '2'
    } else if d == 3 {
        '3'
    } else if d == 4 {
        '4'
    } else if d == 5 {
        '5'
    } else if d == 6 {
        '6'
    } else if d == 7 {
        '7'
    } else if d == 8 {
        '8'
    } else {
        '9'
    }
}

/// The decimal digits of `n`, most significant first, with no leading zero.
pub open spec fn digits(n: nat) -> Seq<char>
    decreases n,
{
    if n < 10 {
        seq![digit_char(n)]
    } else {
        digits(n / 10).push(digit_char(n % 10))
    }
}

/// The decimal text of `v`, with a leading `-` when it is negative.
pub open spec fn decimal(v: int) -> Seq<char> {
    if v < 0 {
        seq!['-'] + digits((-v) as nat)
    } else {
        digits(v as nat)
    }
}

/// Relies on `ToString` for `i64`: the decimal form of the integer, `-` before a
/// negative one.
#[verifier::external_body]
pub(crate) fn decimal_text(v: i64) -> (r: String)
    ensures
        r@ == decimal(v as int),
{
    v.to_string()
}

/// The pieces of `s` between occurrences of `d`; always at least one, possibly empty.
pub open spec fn split_on(s: Seq<char>, d: char) -> Seq<Seq<char>>
    decreases s.len(),
{
    if s.len() == 0 {
        seq![Seq::empty()]
    } else {
        let prev = split_on(s.drop_last(), d);
        if s.last() == d {
            prev.push(Seq::empty())
        } else {
            prev.update(prev.len() - 1, prev.last().push(s.last()))
        }
    }
}

proof fn lemma_split_nonempty(s: Seq<char>, d: char)
    ensures
        split_on(s, d).len() >= 1,
    decreases s.len(),
{
    if s.len() > 0 {
        lemma_split_nonempty(s.drop_last(), d);
    }
}

/// Whether `c` has the Unicode `White_Space` property.
pub open spec fn is_space(c: char) -> bool {
    ||| c == '\t' || c == '\n' || c == '\u{0B}' || c == '\u{0C}' || c == '\r' || c == ' '
    ||| c == '\u{85}' || c == '\u{A0}' || c == '\u{1680}'
    ||| ('\u{2000}' <= c && c <= '\u{200A}')
    ||| c == '\u{2028}' || c == '\u{2029}' || c == '\u{202F}' || c == '\u{205F}' || c == '\u{3000}'
}

/// Whether `c` has the Unicode `White_Space` property.
pub fn char_is_space(c: char) -> (r: bool)
    ensures
        r == is_space(c),
{
    c == '\t' || c == '\n' || c == '\u{0B}' || c == '\u{0C}' || c == '\r' || c == ' ' || c == '\u{85}'
        || c == '\u{A0}' || c == '\u{1680}' || ('\u{2000}' <= c && c <= '\u{200A}') || c == '\u{2028}'
        || c == '\u{2029}' || c == '\u{202F}' || c == '\u{205F}' || c == '\u{3000}'
}

/// `s` without its trailing white space.
pub open spec fn trim_end(s: Seq<char>) -> Seq<char>
    decreases s.len(),
{
    if s.len() > 0 && is_space(s.last()) {
        trim_end(s.drop_last())
    } else {
        s
    }
}

/// The characters of `s` from `start` to `end`, without trailing white space.
fn trimmed_piece(s: &str, start: usize, end: usize) -> (r: String)
    requires
        start <= end <= s@.len(),
    ensures
        r@ == trim_end(s@.subrange(start as int, end as int)),
{
    let mut j = end;
    while j > start && char_is_space(s.get_char(j - 1))
        invariant
            start <= j <= end <= s@.len(),
            trim_end(s@.subrange(start as int, end as int)) == trim_end(s@.subrange(start as int, j as int)),
        decreases j,
    {
        assert(s@.subrange(start as int, j as int).drop_last() =~= s@.subrange(start as int, j - 1));
        j = j - 1;
    }
    s.substring_char(start, j).to_owned()
}

/// Splits `input` at each `|` and drops the trailing white space of each piece.
pub fn parse_and_store_as_vec(input: &str) -> (r: Vec<String>)
    ensures
        r@.map_values(|x: String| x@) == split_on(input@, '|').map_values(|p: Seq<char>| trim_end(p)),
        r@.len() >= 1,
{
    let n = input.unicode_len();
    let mut out: Vec<String> = Vec::new();
    let mut start: usize = 0;
    let mut i: usize = 0;
    proof {
        assert(input@.subrange(0, 0) =~= Seq::<char>::empty());
    }
    while i < n
        invariant
            n == input@.len(),
            start <= i <= n,
            split_on(input@.subrange(0, i as int), '|').len() >= 1,
            split_on(input@.subrange(0, i as int), '|').last() == input@.subrange(start as int, i as int),
            out@.map_values(|x: String| x@) == split_on(input@.subrange(0, i as int), '|').drop_last().map_values(
                |p: Seq<char>| trim_end(p),
            ),
        decreases n - i,
    {
        let c = input.get_char(i);
        let ghost prev = split_on(input@.subrange(0, i as int), '|');
        let ghost before = out@.map_values(|x: String| x@);
        assert(input@.subrange(0, i + 1).drop_last() =~= input@.subrange(0, i as int));
        if c == '|' {
            let piece = trimmed_piece(input, start, i);
            out.push(piece);
            start = i + 1;
            proof {
                let next = split_on(input@.subrange(0, i + 1), '|');
                assert(next == prev.push(Seq::empty()));
                assert(next.drop_last() =~= prev);
                assert(prev =~= prev.drop_last().push(prev.last()));
                assert(out@.map_values(|x: String| x@) =~= before.push(trim_end(prev.last())));
                assert(next.drop_last().map_values(|p: Seq<char>| trim_end(p)) =~= prev.drop_last().map_values(
                    |p: Seq<char>| trim_end(p),
                ).push(trim_end(prev.last())));
                assert(input@.subrange(start as int, i + 1) =~= Seq::<char>::empty());
            }
        } else {
            proof {
                let next = split_on(input@.subrange(0, i + 1), '|');
                assert(next.drop_last() =~= prev.drop_last());
                assert(input@.subrange(start as int, i + 1) =~= input@.subrange(start as int, i as int).push(c));
            }
        }
        i = i + 1;
    }
    let piece = trimmed_piece(input, start, n);
    let ghost before = out@.map_values(|x: String| x@);
    out.push(piece);
    proof {
        let all = split_on(input@.subrange(0, n as int), '|');
        assert(input@.subrange(0, n as int) =~= input@);
        assert(all =~= all.drop_last().push(all.last()));
        assert(out@.map_values(|x: String| x@) =~= before.push(trim_end(all.last())));
        assert(all.map_values(|p: Seq<char>| trim_end(p)) =~= all.drop_last().map_values(|p: Seq<char>| trim_end(p)).push(
            trim_end(all.last()),
        ));
    }
    out
}

/// The pieces joined, with `sep` between each two.
pub open spec fn join(parts: Seq<Seq<char>>, sep: Seq<char>) -> Seq<char>
    decreases parts.len(),
{
    if parts.len() == 0 {
        Seq::empty()
    } else if parts.len() == 1 {
        parts[0]
    } else {
        join(parts.drop_last(), sep) + sep + parts.last()
    }
}

/// The strings joined, with `|` between each two.
pub fn vec_to_string(parts: &Vec<String>) -> (r: String)
    ensures
        r@ == join(parts@.map_values(|x: String| x@), "|"@),
{
    let mut out = String::new();
    let mut i: usize = 0;
    while i < parts.len()
        invariant
            i <= parts@.len(),
            out@ == join(parts@.subrange(0, i as int).map_values(|x: String| x@), "|"@),
        decreases parts@.len() - i,
    {
        let ghost done = parts@.subrange(0, i as int).map_values(|x: String| x@);
        if i > 0 {
            out.append("|");
        }
        out.append(parts[i].as_str());
        proof {
            let next = parts@.subrange(0, i + 1).map_values(|x: String| x@);
            assert(next.drop_last() =~= done);
            if i == 0 {
                assert(out@ =~= next[0]);
            }
        }
        i = i + 1;
    }
    assert(parts@.subrange(0, parts@.len() as int) =~= parts@);
    out
}

/// A key/value text record with unique keys, in the order the keys first came.
#[derive(Debug, Clone)]
pub struct TextMap {
    pub entries: Vec<(String, String)>,
}

/// The entries of a record as text pairs.
pub open spec fn entries_view(e: Seq<(String, String)>) -> Seq<(Seq<char>, Seq<char>)> {
    e.map_values(|p: (String, String)| (p.0@, p.1@))
}

impl View for TextMap {
    type V = Seq<(Seq<char>, Seq<char>)>;

    open spec fn view(&self) -> Seq<(Seq<char>, Seq<char>)> {
        entries_view(self.entries@)
    }
}

/// The position of the last entry with key `k`, or -1.
pub open spec fn key_index(m: Seq<(Seq<char>, Seq<char>)>, k: Seq<char>) -> int
    decreases m.len(),
{
    if m.len() == 0 {
        -1
    } else if m.last().0 == k {
        m.len() - 1
    } else {
        key_index(m.drop_last(), k)
    }
}

/// No two entries share a key.
pub open spec fn keys_unique(m: Seq<(Seq<char>, Seq<char>)>) -> bool {
    forall|i: int, j: int| 0 <= i < j < m.len() ==> #[trigger] m[i].0 != #[trigger] m[j].0
}

/// The value stored under `k`.
pub open spec fn lookup(m: Seq<(Seq<char>, Seq<char>)>, k: Seq<char>) -> Option<Seq<char>> {
    if key_index(m, k) >= 0 {
        Some(m[key_index(m, k)].1)
    } else {
        None
    }
}

/// `m` with `k` mapped to `v`: the entry of `k` changes in place, or a new one comes last.
pub open spec fn insert_entry(m: Seq<(Seq<char>, Seq<char>)>, k: Seq<char>, v: Seq<char>) -> Seq<
    (Seq<char>, Seq<char>),
> {
    if key_index(m, k) >= 0 {
        m.update(key_index(m, k), (k, v))
    } else {
        m.push((k, v))
    }
}

proof fn lemma_key_index(m: Seq<(Seq<char>, Seq<char>)>, k: Seq<char>)
    ensures
        -1 <= key_index(m, k) < m.len(),
        key_index(m, k) >= 0 ==> m[key_index(m, k)].0 == k,
        key_index(m, k) < 0 ==> forall|i: int| 0 <= i < m.len() ==> #[trigger] m[i].0 != k,
    decreases m.len(),
{
    if m.len() > 0 {
        lemma_key_index(m.drop_last(), k);
        if m.last().0 != k {
            assert forall|i: int| 0 <= i < m.len() && key_index(m, k) < 0 implies #[trigger] m[i].0 != k by {
                if i < m.len() - 1 {
                    assert(m[i] == m.drop_last()[i]);
                }
            }
        }
    }
}

impl TextMap {
    /// An empty record.
    pub fn new() -> (r: TextMap)
        ensures
            r@ == Seq::<(Seq<char>, Seq<char>)>::empty(),
    {
        let r = TextMap { entries: Vec::new() };
        assert(r@ =~= Seq::<(Seq<char>, Seq<char>)>::empty());
        r
    }

    /// The position of the entry with key `k`, if any.
    fn find(&self, k: &String) -> (r: Option<usize>)
        ensures
            key_index(self@, k@) >= 0 ==> r is Some && r->0 as int == key_index(self@, k@),
            key_index(self@, k@) < 0 ==> r is None,
    {
        let mut j = self.entries.len();
        proof {
            assert(self@.subrange(0, j as int) =~= self@);
        }
        while j > 0
            invariant
                j <= self@.len(),
                self@.len() == self.entries@.len(),
                key_index(self@, k@) == key_index(self@.subrange(0, j as int), k@),
            decreases j,
        {
            if self.entries[j - 1].0 == *k {
                return Some(j - 1);
            }
            assert(self@.subrange(0, j as int).drop_last() =~= self@.subrange(0, j - 1));
            j = j - 1;
        }
        None
    }

    /// A copy of this record.
    pub fn copy(&self) -> (r: TextMap)
        ensures
            r@ == self@,
    {
        let mut entries: Vec<(String, String)> = Vec::new();
        let mut i: usize = 0;
        while i < self.entries.len()
            invariant
                i <= self.entries@.len(),
                entries_view(entries@) == entries_view(self.entries@.subrange(0, i as int)),
            decreases self.entries@.len() - i,
        {
            let k = self.entries[i].0.clone();
            let v = self.entries[i].1.clone();
            let ghost before = entries@;
            entries.push((k, v));
            assert(entries@ == before.push((k, v)));
            assert(entries_view(entries@) =~= entries_view(before).push((k@, v@)));
            assert(self.entries@.subrange(0, i + 1) =~= self.entries@.subrange(0, i as int).push(
                self.entries@[i as int],
            ));
            assert(entries_view(entries@) =~= entries_view(self.entries@.subrange(0, i + 1)));
            i = i + 1;
        }
        assert(self.entries@.subrange(0, self.entries@.len() as int) =~= self.entries@);
        TextMap { entries }
    }

    /// The value under `key`.
    pub fn get(&self, key: &str) -> (r: Option<&String>)
        ensures
            match lookup(self@, key@) {
                Some(v) => r is Some && r->0@ == v,
                None => r is None,
            },
    {
        let k = key.to_owned();
        proof {
            lemma_key_index(self@, k@);
        }
        match self.find(&k) {
            Some(i) => {
                assert(self@[i as int] == (self.entries@[i as int].0@, self.entries@[i as int].1@));
                Some(&self.entries[i].1)
            },
            None => None,
        }
    }

    /// Maps `key` to `value`, in place where the key is already there, else as a new last entry.
    pub fn insert(&mut self, key: String, value: String)
        requires
            keys_unique(old(self)@),
        ensures
            final(self)@ == insert_entry(old(self)@, key@, value@),
            keys_unique(final(self)@),
    {
        proof {
            lemma_key_index(old(self)@, key@);
        }
        let ghost kv = key@;
        let ghost vv = value@;
        match self.find(&key) {
            Some(i) => {
                self.entries.set(i, (key, value));
                assert(self@ =~= old(self)@.update(i as int, (kv, vv)));
                assert(old(self)@[i as int].0 == kv);
                assert forall|a: int, b: int| 0 <= a < b < self@.len() implies #[trigger] self@[a].0
                    != #[trigger] self@[b].0 by {
                    assert(self@[a].0 == old(self)@[a].0);
                    assert(self@[b].0 == old(self)@[b].0);
                }
            },
            None => {
                self.entries.push((key, value));
                assert(self@ =~= old(self)@.push((kv, vv)));
                assert forall|a: int, b: int| 0 <= a < b < self@.len() implies #[trigger] self@[a].0
                    != #[trigger] self@[b].0 by {
                    if b == self@.len() - 1 {
                        assert(old(self)@[a].0 != kv);
                    }
                }
            },
        }
    }
}

/// `l` without one trailing carriage return.
pub open spec fn strip_cr(l: Seq<char>) -> Seq<char> {
    if l.len() > 0 && l.last() == '\r' {
        l.drop_last()
    } else {
        l
    }
}

/// The lines of `s`: the pieces between line feeds, each ended one without a carriage return
/// before its line feed; a last empty piece is no line.
pub open spec fn lines_of(s: Seq<char>) -> Seq<Seq<char>> {
    let pieces = split_on(s, '\n');
    let ended = pieces.drop_last().map_values(|l: Seq<char>| strip_cr(l));
    if pieces.last().len() == 0 {
        ended
    } else {
        ended.push(pieces.last())
    }
}

/// The position of the first `|` in `l`, or -1.
pub open spec fn first_bar(l: Seq<char>) -> int
    decreases l.len(),
{
    if l.len() == 0 {
        -1
    } else if first_bar(l.drop_last()) >= 0 {
        first_bar(l.drop_last())
    } else if l.last() == '|' {
        l.len() - 1
    } else {
        -1
    }
}

/// The entry a line gives: the text before its first `|` and the text after it.
pub open spec fn entry_of_line(l: Seq<char>) -> Option<(Seq<char>, Seq<char>)> {
    if first_bar(l) >= 0 {
        Some((l.subrange(0, first_bar(l)), l.subrange(first_bar(l) + 1, l.len() as int)))
    } else {
        None
    }
}

/// The record built from lines, each later entry overriding an earlier one with its key.
pub open spec fn fold_lines(lines: Seq<Seq<char>>) -> Seq<(Seq<char>, Seq<char>)>
    decreases lines.len(),
{
    if lines.len() == 0 {
        Seq::empty()
    } else {
        let m = fold_lines(lines.drop_last());
        match entry_of_line(lines.last()) {
            Some((k, v)) => insert_entry(m, k, v),
            None => m,
        }
    }
}

/// The entry of the line `s[start..end]`, if it holds a `|`.
fn line_entry(s: &str, start: usize, end: usize) -> (r: Option<(String, String)>)
    requires
        start <= end <= s@.len(),
    ensures
        match entry_of_line(s@.subrange(start as int, end as int)) {
            Some((k, v)) => r is Some && (r->0).0@ == k && (r->0).1@ == v,
            None => r is None,
        },
{
    let ghost l = s@.subrange(start as int, end as int);
    let mut i = start;
    proof {
        assert(l.subrange(0, 0) =~= Seq::<char>::empty());
    }
    while i < end
        invariant
            start <= i <= end <= s@.len(),
            l == s@.subrange(start as int, end as int),
            first_bar(l.subrange(0, i - start)) == -1,
        decreases end - i,
    {
        assert(l.subrange(0, i - start + 1).drop_last() =~= l.subrange(0, i - start));
        if s.get_char(i) == '|' {
            proof {
                lemma_first_bar_prefix(l, i - start + 1);
            }
            let k = s.substring_char(start, i).to_owned();
            let v = s.substring_char(i + 1, end).to_owned();
            assert(k@ =~= l.subrange(0, i - start));
            assert(v@ =~= l.subrange(i - start + 1, l.len() as int));
            return Some((k, v));
        }
        i = i + 1;
    }
    assert(l.subrange(0, end - start) =~= l);
    None
}

proof fn lemma_first_bar_prefix(l: Seq<char>, n: int)
    requires
        0 <= n <= l.len(),
        first_bar(l.subrange(0, n)) >= 0,
    ensures
        first_bar(l) == first_bar(l.subrange(0, n)),
    decreases l.len() - n,
{
    if n < l.len() {
        assert(l.subrange(0, n + 1).drop_last() =~= l.subrange(0, n));
        lemma_first_bar_prefix(l, n + 1);
    } else {
        assert(l.subrange(0, n) =~= l);
    }
}

/// Adds the entry of the line `s[start..end]`, if it has one.
fn add_line(m: &mut TextMap, s: &str, start: usize, end: usize)
    requires
        start <= end <= s@.len(),
        keys_unique(old(m)@),
    ensures
        keys_unique(final(m)@),
        final(m)@ == match entry_of_line(s@.subrange(start as int, end as int)) {
            Some((k, v)) => insert_entry(old(m)@, k, v),
            None => old(m)@,
        },
{
    match line_entry(s, start, end) {
        Some((k, v)) => m.insert(k, v),
        None => {},
    }
}

/// Reads a record of `key|value` lines. A line without `|` is skipped; the value is all that
/// follows the first `|`; of two lines with one key the later wins.
pub fn parse_and_store_as_map(input: &str) -> (r: TextMap)
    ensures
        r@ == fold_lines(lines_of(input@)),
        keys_unique(r@),
{
    let n = input.unicode_len();
    let mut m = TextMap::new();
    let mut start: usize = 0;
    let mut i: usize = 0;
    proof {
        assert(input@.subrange(0, 0) =~= Seq::<char>::empty());
    }
    while i < n
        invariant
            n == input@.len(),
            start <= i <= n,
            keys_unique(m@),
            split_on(input@.subrange(0, i as int), '\n').len() >= 1,
            split_on(input@.subrange(0, i as int), '\n').last() == input@.subrange(start as int, i as int),
            m@ == fold_lines(
                split_on(input@.subrange(0, i as int), '\n').drop_last().map_values(|l: Seq<char>| strip_cr(l)),
            ),
        decreases n - i,
    {
        let c = input.get_char(i);
        let ghost prev = split_on(input@.subrange(0, i as int), '\n');
        assert(input@.subrange(0, i + 1).drop_last() =~= input@.subrange(0, i as int));
        if c == '\n' {
            let end = if i > start && input.get_char(i - 1) == '\r' {
                i - 1
            } else {
                i
            };
            proof {
                let line = input@.subrange(start as int, i as int);
                if i > start && input@[i - 1] == '\r' {
                    assert(strip_cr(line) =~= input@.subrange(start as int, end as int));
                } else {
                    assert(strip_cr(line) =~= input@.subrange(start as int, end as int));
                }
            }
            add_line(&mut m, input, start, end);
            proof {
                let next = split_on(input@.subrange(0, i + 1), '\n');
                let lines = prev.drop_last().map_values(|l: Seq<char>| strip_cr(l));
                assert(next.drop_last() =~= prev);
                assert(prev =~= prev.drop_last().push(prev.last()));
                let nl = next.drop_last().map_values(|l: Seq<char>| strip_cr(l));
                assert(nl =~= lines.push(strip_cr(prev.last())));
                assert(nl.drop_last() =~= lines);
                assert(input@.subrange((i + 1) as int, i + 1) =~= Seq::<char>::empty());
            }
            start = i + 1;
        } else {
            proof {
                let next = split_on(input@.subrange(0, i + 1), '\n');
                assert(next.drop_last() =~= prev.drop_last());
                assert(input@.subrange(start as int, i + 1) =~= input@.subrange(start as int, i as int).push(c));
            }
        }
        i = i + 1;
    }
    proof {
        assert(input@.subrange(0, n as int) =~= input@);
    }
    if start < n {
        let ghost before = m@;
        add_line(&mut m, input, start, n);
        proof {
            let pieces = split_on(input@, '\n');
            let ended = pieces.drop_last().map_values(|l: Seq<char>| strip_cr(l));
            assert(ended.push(pieces.last()).drop_last() =~= ended);
        }
    }
    m
}

/// The text of one entry: its key, `|`, its value.
pub open spec fn entry_text(e: (Seq<char>, Seq<char>)) -> Seq<char> {
    e.0 + "|"@ + e.1
}

/// The record as `key|value` lines joined by line feeds, in the order of its entries.
pub fn map_to_string(map: &TextMap) -> (r: String)
    ensures
        r@ == join(map@.map_values(|e: (Seq<char>, Seq<char>)| entry_text(e)), "\n"@),
{
    let mut out = String::new();
    let mut i: usize = 0;
    let ghost texts = map@.map_values(|e: (Seq<char>, Seq<char>)| entry_text(e));
    while i < map.entries.len()
        invariant
            i <= map@.len(),
            map@.len() == map.entries@.len(),
            texts == map@.map_values(|e: (Seq<char>, Seq<char>)| entry_text(e)),
            out@ == join(texts.subrange(0, i as int), "\n"@),
        decreases map@.len() - i,
    {
        if i > 0 {
            out.append("\n");
        }
        let ghost before = out@;
        out.append(map.entries[i].0.as_str());
        out.append("|");
        out.append(map.entries[i].1.as_str());
        proof {
            assert(out@ =~= before + texts[i as int]);
            assert(texts.subrange(0, i + 1).drop_last() =~= texts.subrange(0, i as int));
            if i == 0 {
                assert(out@ =~= texts.subrange(0, 1)[0]);
            }
        }
        i = i + 1;
    }
    assert(texts.subrange(0, map@.len() as int) =~= texts);
    out
}

} // verus!
