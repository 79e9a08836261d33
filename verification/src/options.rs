//! Decoder options: the key/value collection and the `key=value,key=value`
//! text that fills it.

use crate::text::{
    find_char, index_of, str_equal, string_from_range, trim_end_in, trim_range, trim_start_in,
    trimmed, trimmed_chars, trimmed_range,
};
use vstd::prelude::*;

verus! {

/// One key with its value, as texts.
pub type Pair = (Seq<char>, Seq<char>);

/// The map that a list of assignments amounts to: a later assignment to a
/// key overrides an earlier one.
pub open spec fn pairs_map(pairs: Seq<Pair>) -> Map<Seq<char>, Seq<char>>
    decreases pairs.len(),
{
    if pairs.len() == 0 {
        Map::empty()
    } else {
        pairs_map(pairs.drop_last()).insert(pairs.last().0, pairs.last().1)
    }
}

/// Decoder options by key. The options are kept as the list of
/// assignments made, in order; what a key is set to is what its latest
/// assignment says.
pub struct OptionMap {
    entries: Vec<(String, String)>,
}

impl View for OptionMap {
    type V = Map<Seq<char>, Seq<char>>;

    open spec fn view(&self) -> Map<Seq<char>, Seq<char>> {
        pairs_map(self.pairs())
    }
}

/// A key that no assignment names is not in the map.
pub proof fn lemma_pairs_map_absent(pairs: Seq<Pair>, key: Seq<char>)
    requires
        forall|i: int| 0 <= i < pairs.len() ==> (#[trigger] pairs[i]).0 != key,
    ensures
        !pairs_map(pairs).contains_key(key),
    decreases pairs.len(),
{
    if pairs.len() > 0 {
        let init = pairs.drop_last();
        assert forall|i: int| 0 <= i < init.len() implies (#[trigger] init[i]).0 != key by {
            assert(init[i] == pairs[i]);
        }
        lemma_pairs_map_absent(init, key);
        assert(pairs[pairs.len() - 1].0 != key);
    }
}

/// The map holds, for a key, the value of the last assignment that names
/// it.
pub proof fn lemma_pairs_map_last(pairs: Seq<Pair>, key: Seq<char>, at: int)
    requires
        0 <= at < pairs.len(),
        pairs[at].0 == key,
        forall|j: int| at < j < pairs.len() ==> (#[trigger] pairs[j]).0 != key,
    ensures
        pairs_map(pairs).contains_key(key),
        pairs_map(pairs)[key] == pairs[at].1,
    decreases pairs.len(),
{
    if at < pairs.len() - 1 {
        let init = pairs.drop_last();
        assert(init[at] == pairs[at]);
        assert forall|j: int| at < j < init.len() implies (#[trigger] init[j]).0 != key by {
            assert(init[j] == pairs[j]);
        }
        lemma_pairs_map_last(init, key, at);
        assert(pairs[pairs.len() - 1].0 != key);
    }
}

impl OptionMap {
    /// The assignments made so far, in order.
    pub closed spec fn pairs(&self) -> Seq<Pair> {
        Seq::new(self.entries@.len(), |i: int| (self.entries@[i].0@, self.entries@[i].1@))
    }

    /// No options.
    pub fn new() -> (opts: OptionMap)
        ensures
            opts.pairs() == Seq::<Pair>::empty(),
            opts@ == Map::<Seq<char>, Seq<char>>::empty(),
    {
        let opts = OptionMap { entries: Vec::new() };
        assert(opts.pairs() == Seq::<Pair>::empty());
        opts
    }

    /// Sets `key` to `value`.
    pub fn insert(&mut self, key: String, value: String)
        ensures
            final(self).pairs() == old(self).pairs().push((key@, value@)),
            final(self)@ == old(self)@.insert(key@, value@),
    {
        self.entries.push((key, value));
        assert(self.pairs() == old(self).pairs().push((key@, value@)));
        assert(self.pairs().drop_last() == old(self).pairs());
    }

    /// What `key` is set to, if it is set.
    pub fn get(&self, key: &str) -> (value: Option<&String>)
        ensures
            value is Some <==> self@.contains_key(key@),
            value matches Some(v) ==> v@ == self@[key@],
    {
        let mut i: usize = self.entries.len();
        while i > 0
            invariant
                i <= self.entries@.len(),
                forall|j: int| i <= j < self.entries@.len() ==> (#[trigger] self.pairs()[j]).0 != key@,
            decreases i,
        {
            i -= 1;
            if str_equal(self.entries[i].0.as_str(), key) {
                proof {
                    assert(self.pairs()[i as int].0 == key@);
                    lemma_pairs_map_last(self.pairs(), key@, i as int);
                }
                return Some(&self.entries[i].1);
            }
        }
        proof {
            lemma_pairs_map_absent(self.pairs(), key@);
        }
        None
    }

    /// Whether `key` is set.
    pub fn contains_key(&self, key: &str) -> (found: bool)
        ensures
            found == self@.contains_key(key@),
    {
        self.get(key).is_some()
    }

    /// Sets `key` to `value` unless `key` is set already.
    pub fn insert_if_absent(&mut self, key: &str, value: &str)
        ensures
            final(self)@ == if old(self)@.contains_key(key@) {
                old(self)@
            } else {
                old(self)@.insert(key@, value@)
            },
            final(self).pairs() == if old(self)@.contains_key(key@) {
                old(self).pairs()
            } else {
                old(self).pairs().push((key@, value@))
            },
    {
        if !self.contains_key(key) {
            self.insert(key.to_owned(), value.to_owned());
        }
    }

    /// The number of assignments made so far.
    pub fn assignment_count(&self) -> (count: usize)
        ensures
            count == self.pairs().len(),
    {
        self.entries.len()
    }

    /// The assignment with the given index, key first.
    pub fn assignment(&self, index: usize) -> (pair: (&String, &String))
        requires
            index < self.pairs().len(),
        ensures
            (pair.0@, pair.1@) == self.pairs()[index as int],
    {
        (&self.entries[index].0, &self.entries[index].1)
    }
}

/// Whether a key is reserved: the decoder gets these from the program
/// itself, never from the user.
pub open spec fn is_excluded(key: Seq<char>) -> bool {
    key == "sub_type"@ || key == "ass_single_rect"@ || key == "canvas_size"@
}

/// Whether a key is reserved.
pub fn is_excluded_opt(key: &str) -> (excluded: bool)
    ensures
        excluded == is_excluded(key@),
{
    str_equal(key, "sub_type") || str_equal(key, "ass_single_rect") || str_equal(key, "canvas_size")
}

/// The first index at or after `from` that holds neither a space nor a
/// tab, or the length of the text.
pub open spec fn skip_blanks(s: Seq<char>, from: int) -> int
    decreases s.len() - from,
{
    if from >= s.len() {
        s.len() as int
    } else if s[from] == ' ' || s[from] == '\t' {
        skip_blanks(s, from + 1)
    } else {
        from
    }
}

/// Whether the text from `from` on begins with another option: after
/// blanks, a key that is not empty and holds no comma, and then `=`.
pub open spec fn starts_option(s: Seq<char>, from: int) -> bool {
    let start = skip_blanks(s, from);
    let eq = index_of(s, '=', start);
    let a = trim_start_in(s, start, eq);
    let b = trim_end_in(s, a, eq);
    eq < s.len() && a < b && index_of(s, ',', a) >= b
}

/// Where the value that begins at `start` ends, seen from index `i`:
/// at the first comma outside quotes after which another option begins,
/// or at the end of the text. A quote character opens or closes a quoted
/// stretch unless a backslash stands before it.
pub open spec fn value_end(s: Seq<char>, start: int, i: int, in_quotes: bool, quote: char) -> int
    decreases s.len() - i,
{
    if i >= s.len() {
        s.len() as int
    } else if (s[i] == '"' || s[i] == '\'') && (i == start || s[i - 1] != '\\') {
        if !in_quotes {
            value_end(s, start, i + 1, true, s[i])
        } else if s[i] == quote {
            value_end(s, start, i + 1, false, quote)
        } else {
            value_end(s, start, i + 1, in_quotes, quote)
        }
    } else if s[i] == ',' && !in_quotes && starts_option(s, i + 1) {
        i
    } else {
        value_end(s, start, i + 1, in_quotes, quote)
    }
}

/// The value written in `[start, end)`: trimmed, and without its quotes
/// where one pair of equal quotes encloses it.
pub open spec fn option_value(s: Seq<char>, start: int, end: int) -> Seq<char> {
    let a = trim_start_in(s, start, end);
    let b = trim_end_in(s, a, end);
    if b - a >= 2 && ((s[a] == '"' && s[b - 1] == '"') || (s[a] == '\'' && s[b - 1] == '\'')) {
        s.subrange(a + 1, b - 1)
    } else {
        s.subrange(a, b)
    }
}

/// The assignments that the text makes from `pos` on, in order. Reading
/// stops at a stretch without `=`. Reserved keys are left out.
pub open spec fn options_from(s: Seq<char>, pos: int) -> Seq<Pair>
    decreases s.len() - pos,
{
    let p = trim_start_in(s, pos, s.len() as int);
    let eq = index_of(s, '=', p);
    if pos < 0 || p >= s.len() || eq >= s.len() {
        Seq::empty()
    } else {
        let key = trimmed_range(s, p, eq);
        let end = value_end(s, eq + 1, eq + 1, false, ' ');
        let next = if end < s.len() {
            end + 1
        } else {
            end
        };
        let rest = if pos < next <= s.len() {
            options_from(s, next)
        } else {
            Seq::empty()
        };
        if is_excluded(key) {
            rest
        } else {
            seq![(key, option_value(s, eq + 1, end))] + rest
        }
    }
}

/// The assignments that an option text makes.
pub open spec fn options_of(text: Seq<char>) -> Seq<Pair> {
    options_from(trimmed(text), 0)
}

fn skip_blanks_exec(chars: &Vec<char>, from: usize) -> (at: usize)
    requires
        from <= chars@.len(),
    ensures
        at == skip_blanks(chars@, from as int),
        from <= at <= chars@.len(),
{
    let mut i: usize = from;
    while i < chars.len() && (chars[i] == ' ' || chars[i] == '\t')
        invariant
            from <= i <= chars@.len(),
            skip_blanks(chars@, from as int) == skip_blanks(chars@, i as int),
        decreases chars@.len() - i,
    {
        i += 1;
    }
    i
}

fn starts_option_exec(chars: &Vec<char>, from: usize) -> (found: bool)
    requires
        from <= chars@.len(),
    ensures
        found == starts_option(chars@, from as int),
{
    let start = skip_blanks_exec(chars, from);
    let eq = find_char(chars, '=', start);
    if eq >= chars.len() {
        return false;
    }
    let (a, b) = trim_range(chars, start, eq);
    if a >= b {
        return false;
    }
    let comma = find_char(chars, ',', a);
    comma >= b
}

/// Finds where the value that begins at `start` ends.
fn scan_value(chars: &Vec<char>, start: usize) -> (end: usize)
    requires
        start <= chars@.len(),
    ensures
        end == value_end(chars@, start as int, start as int, false, ' '),
        start <= end <= chars@.len(),
{
    let mut i: usize = start;
    let mut in_quotes = false;
    let mut quote: char = ' ';
    while i < chars.len()
        invariant
            start <= i <= chars@.len(),
            value_end(chars@, start as int, start as int, false, ' ') == value_end(
                chars@,
                start as int,
                i as int,
                in_quotes,
                quote,
            ),
        decreases chars@.len() - i,
    {
        let c = chars[i];
        if (c == '"' || c == '\'') && (i == start || chars[i - 1] != '\\') {
            if !in_quotes {
                in_quotes = true;
                quote = c;
            } else if c == quote {
                in_quotes = false;
            }
        } else if c == ',' && !in_quotes && starts_option_exec(chars, i + 1) {
            return i;
        }
        i += 1;
    }
    i
}

/// Reads decoder options written as `key=value,key=value`.
///
/// A value may be quoted; a comma inside quotes, or one that no `key=`
/// follows, is part of the value. Reserved keys are left out.
pub fn parse_libaribcaption_opts(opts_str: &str) -> (opts: OptionMap)
    ensures
        opts.pairs() == options_of(opts_str@),
        opts@ == pairs_map(options_of(opts_str@)),
{
    let chars = trimmed_chars(opts_str);
    let n: usize = chars.len();
    let mut opts = OptionMap::new();
    let mut pos: usize = 0;
    while pos < n
        invariant_except_break
            pos <= n,
            options_from(chars@, 0) == opts.pairs() + options_from(chars@, pos as int),
        invariant
            n == chars@.len(),
            chars@ == trimmed(opts_str@),
        ensures
            options_from(chars@, 0) == opts.pairs(),
        decreases n - pos,
    {
        let ghost done = opts.pairs();
        let (p, _) = trim_range(&chars, pos, n);
        if p >= n {
            assert(done + Seq::<Pair>::empty() == done);
            break;
        }
        let eq = find_char(&chars, '=', p);
        if eq >= n {
            assert(done + Seq::<Pair>::empty() == done);
            break;
        }
        let (ka, kb) = trim_range(&chars, p, eq);
        let key = string_from_range(&chars, ka, kb);
        let end = scan_value(&chars, eq + 1);
        let (va, vb) = trim_range(&chars, eq + 1, end);
        let quoted = vb - va >= 2 && ((chars[va] == '"' && chars[vb - 1] == '"') || (chars[va]
            == '\'' && chars[vb - 1] == '\''));
        let value = if quoted {
            string_from_range(&chars, va + 1, vb - 1)
        } else {
            string_from_range(&chars, va, vb)
        };
        let next: usize = if end < n {
            end + 1
        } else {
            end
        };
        let ghost rest = options_from(chars@, next as int);
        if is_excluded_opt(key.as_str()) {
            assert(options_from(chars@, pos as int) == rest);
        } else {
            assert(options_from(chars@, pos as int) == seq![(key@, value@)] + rest);
            opts.insert(key, value);
            assert(opts.pairs() + rest == done + (seq![(key@, value@)] + rest));
        }
        pos = next;
    }
    proof {
        if pos >= n {
            assert(options_from(chars@, pos as int) == Seq::<Pair>::empty());
            assert(opts.pairs() + Seq::<Pair>::empty() == opts.pairs());
        }
    }
    opts
}

} // verus!
