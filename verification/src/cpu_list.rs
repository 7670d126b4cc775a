//! Sets of core identifiers, and the parser for the textual list format in
//! which the operating system reports them: comma-separated decimal numbers
//! and ranges `from-to`, such as `0-2,7,12-14`.

use vstd::prelude::*;
use vstd::string::StringSliceAdditionalSpecFns;

verus! {

/// Why a list of core identifiers could not be parsed.
#[derive(Clone, Copy, Debug, PartialEq, Eq, Structural)]
pub enum ParseError {
    /// A number is missing: the list, an entry or a bound of a range is
    /// empty.
    Empty,
    /// A number holds a byte that is no decimal digit.
    InvalidDigit,
    /// A number does not fit a core identifier.
    TooLarge,
    /// A range ends before it starts.
    InvertedRange,
}

/// Whether `s` is strictly ascending.
pub open spec fn strictly_ascending(s: Seq<usize>) -> bool {
    forall|i: int, j: int| 0 <= i < j < s.len() ==> s[i] < s[j]
}

/// A finite set of core identifiers.
#[derive(Debug)]
pub struct CoreSet {
    ids: Vec<usize>,
}

impl View for CoreSet {
    type V = Set<usize>;

    open spec fn view(&self) -> Set<usize> {
        self.ids().to_set()
    }
}

impl CoreSet {
    /// The members, in the order in which the set stores them.
    pub closed spec fn ids(&self) -> Seq<usize> {
        self.ids@
    }

    /// Well-formedness: the members are stored in strictly ascending order,
    /// each once.
    pub open spec fn wf(&self) -> bool {
        strictly_ascending(self.ids())
    }

    /// The empty set.
    pub fn new() -> (set: CoreSet)
        ensures
            set.wf(),
            set@ == Set::<usize>::empty(),
            set.ids().len() == 0,
    {
        let set = CoreSet { ids: Vec::new() };
        assert(set.ids().to_set() =~= Set::<usize>::empty());
        set
    }

    /// The number of members.
    pub fn len(&self) -> (n: usize)
        requires
            self.wf(),
        ensures
            n == self.ids().len(),
            n == self@.len(),
    {
        proof {
            self.lemma_ids_distinct();
            self.ids().unique_seq_to_set();
        }
        self.ids.len()
    }

    /// Whether the set has no member.
    pub fn is_empty(&self) -> (empty: bool)
        ensures
            empty == (self.ids().len() == 0),
            empty == (self@ == Set::<usize>::empty()),
    {
        let empty: bool = self.ids.len() == 0;
        proof {
            if empty {
                assert(self.ids().to_set() =~= Set::<usize>::empty());
            } else {
                assert(self.ids().to_set().contains(self.ids()[0]));
            }
        }
        empty
    }

    /// The member at position `i` of the ascending order.
    pub fn get(&self, i: usize) -> (id: usize)
        requires
            i < self.ids().len(),
        ensures
            id == self.ids()[i as int],
    {
        self.ids[i]
    }

    /// In a well-formed set no member is stored twice.
    pub proof fn lemma_ids_distinct(&self)
        requires
            self.wf(),
        ensures
            self.ids().no_duplicates(),
    {
        assert forall|i: int, j: int|
            0 <= i < self.ids().len() && 0 <= j < self.ids().len() && i != j implies self.ids()[i]
            != self.ids()[j] by {
            if i < j {
                assert(self.ids()[i] < self.ids()[j]);
            } else {
                assert(self.ids()[j] < self.ids()[i]);
            }
        }
    }

    /// The first position whose member is not below `id`.
    fn lower_bound(&self, id: usize) -> (p: usize)
        requires
            self.wf(),
        ensures
            p <= self.ids().len(),
            forall|k: int| 0 <= k < p ==> self.ids()[k] < id,
            forall|k: int| p <= k < self.ids().len() ==> self.ids()[k] >= id,
    {
        let mut lo: usize = 0;
        let mut hi: usize = self.ids.len();
        while lo < hi
            invariant
                self.wf(),
                lo <= hi <= self.ids().len(),
                forall|k: int| 0 <= k < lo ==> self.ids()[k] < id,
                forall|k: int| hi <= k < self.ids().len() ==> self.ids()[k] >= id,
            decreases hi - lo,
        {
            let mid: usize = lo + (hi - lo) / 2;
            if self.ids[mid] < id {
                lo = mid + 1;
            } else {
                hi = mid;
            }
        }
        lo
    }

    /// The position of `id` in the ascending order of the members, if it
    /// is one.
    pub fn position(&self, id: usize) -> (found: Option<usize>)
        requires
            self.wf(),
        ensures
            match found {
                Some(p) => p < self.ids().len() && self.ids()[p as int] == id,
                None => !self@.contains(id),
            },
    {
        let p: usize = self.lower_bound(id);
        if p < self.ids.len() && self.ids[p] == id {
            Some(p)
        } else {
            None
        }
    }

    /// Whether `id` is a member.
    pub fn contains(&self, id: usize) -> (member: bool)
        requires
            self.wf(),
        ensures
            member == self@.contains(id),
    {
        self.position(id).is_some()
    }

    /// Adds `id` to the set.
    pub fn insert(&mut self, id: usize)
        requires
            old(self).wf(),
        ensures
            final(self).wf(),
            final(self)@ == old(self)@.insert(id),
    {
        let p: usize = self.lower_bound(id);
        if p < self.ids.len() && self.ids[p] == id {
            assert(self.ids().to_set().insert(id) =~= self.ids().to_set());
            return ;
        }
        let ghost before = self.ids();
        self.ids.insert(p, id);
        proof {
            let after = self.ids();
            assert(after == before.insert(p as int, id));
            assert forall|i: int, j: int| 0 <= i < j < after.len() implies after[i] < after[j] by {
                if j < p {
                    assert(after[i] == before[i] && after[j] == before[j]);
                } else if j == p {
                    assert(after[i] == before[i]);
                } else if i < p {
                    assert(after[i] == before[i] && after[j] == before[j - 1]);
                } else if i == p {
                    assert(after[j] == before[j - 1]);
                } else {
                    assert(after[i] == before[i - 1] && after[j] == before[j - 1]);
                }
            }
            assert forall|x: usize| after.to_set().contains(x) <==> before.to_set().insert(
                id,
            ).contains(x) by {
                if after.contains(x) {
                    let k = choose|k: int| 0 <= k < after.len() && after[k] == x;
                    if k < p {
                        assert(before[k] == x);
                    } else if k > p {
                        assert(before[k - 1] == x);
                    }
                }
                if before.contains(x) {
                    let k = choose|k: int| 0 <= k < before.len() && before[k] == x;
                    if k < p {
                        assert(after[k] == x);
                    } else {
                        assert(after[k + 1] == x);
                    }
                }
                if x == id {
                    assert(after[p as int] == x);
                }
            }
            assert(after.to_set() =~= before.to_set().insert(id));
        }
    }

    /// Adds every identifier from `from` to `to`, both included.
    pub fn insert_range(&mut self, from: usize, to: usize)
        requires
            old(self).wf(),
            from <= to,
        ensures
            final(self).wf(),
            final(self)@ == old(self)@.union(range_set(from, to)),
    {
        let mut next: usize = from;
        assert(self@ =~= old(self)@.union(Set::new(|c: usize| from <= c < next)));
        while next < to
            invariant
                self.wf(),
                from <= next <= to,
                self@ == old(self)@.union(Set::new(|c: usize| from <= c < next)),
            decreases to - next,
        {
            let ghost before = self@;
            self.insert(next);
            assert(before.insert(next) =~= old(self)@.union(
                Set::new(|c: usize| from <= c < next + 1),
            ));
            next += 1;
        }
        let ghost before = self@;
        self.insert(to);
        assert(before.insert(to) =~= old(self)@.union(range_set(from, to)));
    }

    /// The members in ascending order.
    pub fn into_vec(self) -> (ids: Vec<usize>)
        requires
            self.wf(),
        ensures
            ids@ == self.ids(),
            strictly_ascending(ids@),
            ids@.to_set() == self@,
    {
        self.ids
    }
}

/// The identifiers from `from` to `to`, both included.
pub open spec fn range_set(from: usize, to: usize) -> Set<usize> {
    Set::new(|c: usize| from <= c <= to)
}

/// ASCII whitespace: space, tab, line feed, vertical tab, form feed and
/// carriage return.
pub open spec fn is_space(b: u8) -> bool {
    b == 0x20 || (0x09 <= b <= 0x0d)
}

/// An ASCII decimal digit.
pub open spec fn is_digit(b: u8) -> bool {
    0x30 <= b <= 0x39
}

/// `s` without its leading whitespace.
pub open spec fn trim_start(s: Seq<u8>) -> Seq<u8>
    decreases s.len(),
{
    if s.len() > 0 && is_space(s[0]) {
        trim_start(s.skip(1))
    } else {
        s
    }
}

/// `s` without its trailing whitespace.
pub open spec fn trim_end(s: Seq<u8>) -> Seq<u8>
    decreases s.len(),
{
    if s.len() > 0 && is_space(s.last()) {
        trim_end(s.drop_last())
    } else {
        s
    }
}

/// `s` without the whitespace at both ends.
pub open spec fn trim(s: Seq<u8>) -> Seq<u8> {
    trim_end(trim_start(s))
}

/// The position of the first `b` in `s`, or the length of `s` if there is
/// none.
pub open spec fn first_index(s: Seq<u8>, b: u8) -> nat
    decreases s.len(),
{
    if s.len() == 0 || s[0] == b {
        0
    } else {
        1 + first_index(s.skip(1), b)
    }
}

/// The number that the decimal digits `s` write.
pub open spec fn decimal_value(s: Seq<u8>) -> nat
    decreases s.len(),
{
    if s.len() == 0 {
        0
    } else {
        decimal_value(s.drop_last()) * 10 + (s.last() - 0x30) as nat
    }
}

/// A number: one or more decimal digits whose value fits an identifier.
pub open spec fn parse_number(s: Seq<u8>) -> Result<usize, ParseError> {
    if s.len() == 0 {
        Err(ParseError::Empty)
    } else if exists|i: int| 0 <= i < s.len() && !is_digit(s[i]) {
        Err(ParseError::InvalidDigit)
    } else if decimal_value(s) > usize::MAX {
        Err(ParseError::TooLarge)
    } else {
        Ok(decimal_value(s) as usize)
    }
}

/// An entry: a number `n`, which stands for the range from `n` to `n`, or
/// two numbers around the first `-`, the first not above the second. The
/// first bound is read before the second.
pub open spec fn parse_entry(s: Seq<u8>) -> Result<(usize, usize), ParseError> {
    let dash = first_index(s, 0x2d);
    if dash == s.len() {
        match parse_number(s) {
            Ok(n) => Ok((n, n)),
            Err(e) => Err(e),
        }
    } else {
        match parse_number(s.subrange(0, dash as int)) {
            Err(e) => Err(e),
            Ok(from) => match parse_number(s.subrange(dash as int + 1, s.len() as int)) {
                Err(e) => Err(e),
                Ok(to) => if from <= to {
                    Ok((from, to))
                } else {
                    Err(ParseError::InvertedRange)
                },
            },
        }
    }
}

/// The entries of `s`, which commas separate, read from left to right: the
/// union of their ranges, or the error of the first entry that has one.
pub open spec fn parse_entries(s: Seq<u8>) -> Result<Set<usize>, ParseError>
    decreases s.len(),
{
    let comma = first_index(s, 0x2c);
    match parse_entry(s.subrange(0, comma as int)) {
        Err(e) => Err(e),
        Ok((from, to)) => if comma >= s.len() {
            Ok(range_set(from, to))
        } else {
            match parse_entries(s.subrange(comma as int + 1, s.len() as int)) {
                Err(e) => Err(e),
                Ok(rest) => Ok(range_set(from, to).union(rest)),
            }
        },
    }
}

/// What a list of core identifiers means: the entries of the text without
/// the whitespace around it.
pub open spec fn parse_cpu_list(s: Seq<u8>) -> Result<Set<usize>, ParseError> {
    parse_entries(trim(s))
}

proof fn lemma_first_index_is(s: Seq<u8>, b: u8, n: int)
    requires
        0 <= n <= s.len(),
        forall|k: int| 0 <= k < n ==> s[k] != b,
        n == s.len() || s[n] == b,
    ensures
        first_index(s, b) == n,
    decreases n,
{
    if n > 0 {
        lemma_first_index_is(s.skip(1), b, n - 1);
    }
}

proof fn lemma_trim_start_is(s: Seq<u8>, n: int)
    requires
        0 <= n <= s.len(),
        forall|k: int| 0 <= k < n ==> is_space(s[k]),
        n == s.len() || !is_space(s[n]),
    ensures
        trim_start(s) == s.skip(n),
    decreases n,
{
    if n > 0 {
        lemma_trim_start_is(s.skip(1), n - 1);
        assert(s.skip(1).skip(n - 1) =~= s.skip(n));
    } else {
        assert(s.skip(0) =~= s);
    }
}

proof fn lemma_trim_end_is(s: Seq<u8>, n: int)
    requires
        0 <= n <= s.len(),
        forall|k: int| n <= k < s.len() ==> is_space(s[k]),
        n == 0 || !is_space(s[n - 1]),
    ensures
        trim_end(s) == s.take(n),
    decreases s.len() - n,
{
    if n < s.len() {
        lemma_trim_end_is(s.drop_last(), n);
        assert(s.drop_last().take(n) =~= s.take(n));
    } else {
        assert(s.take(n) =~= s);
    }
}

/// The first position at or after `lo` and before `hi` that holds `b`, or
/// `hi`.
fn find_byte(s: &[u8], lo: usize, hi: usize, b: u8) -> (at: usize)
    requires
        lo <= hi <= s@.len(),
    ensures
        lo <= at <= hi,
        at - lo == first_index(s@.subrange(lo as int, hi as int), b),
{
    let mut at: usize = lo;
    while at < hi && s[at] != b
        invariant
            lo <= at <= hi <= s@.len(),
            forall|k: int| lo <= k < at ==> s@[k] != b,
        decreases hi - at,
    {
        at += 1;
    }
    proof {
        lemma_first_index_is(s@.subrange(lo as int, hi as int), b, at - lo);
    }
    at
}

/// Reads the number between `lo` and `hi`.
fn read_number(s: &[u8], lo: usize, hi: usize) -> (number: Result<usize, ParseError>)
    requires
        lo <= hi <= s@.len(),
    ensures
        number == parse_number(s@.subrange(lo as int, hi as int)),
{
    let ghost text = s@.subrange(lo as int, hi as int);
    if lo == hi {
        return Err(ParseError::Empty);
    }
    let mut value: usize = 0;
    let mut fits: bool = true;
    let mut at: usize = lo;
    assert(text.take(0) =~= Seq::<u8>::empty());
    while at < hi
        invariant
            lo <= at <= hi <= s@.len(),
            text == s@.subrange(lo as int, hi as int),
            forall|k: int| 0 <= k < at - lo ==> is_digit(text[k]),
            fits ==> value == decimal_value(text.take(at - lo)),
            !fits ==> decimal_value(text.take(at - lo)) > usize::MAX,
        decreases hi - at,
    {
        let b: u8 = s[at];
        assert(text[at - lo] == b);
        if b < 0x30 || b > 0x39 {
            return Err(ParseError::InvalidDigit);
        }
        let digit: usize = (b - 0x30) as usize;
        proof {
            assert(text.take(at - lo + 1).drop_last() =~= text.take(at - lo));
            assert(text.take(at - lo + 1).last() == b);
        }
        if fits {
            match value.checked_mul(10) {
                None => {
                    fits = false;
                },
                Some(tens) => match tens.checked_add(digit) {
                    None => {
                        fits = false;
                    },
                    Some(sum) => {
                        value = sum;
                    },
                },
            }
        }
        at += 1;
    }
    assert(text.take(hi - lo) =~= text);
    if fits {
        Ok(value)
    } else {
        Err(ParseError::TooLarge)
    }
}

/// Reads the entry between `lo` and `hi`.
fn read_entry(s: &[u8], lo: usize, hi: usize) -> (entry: Result<(usize, usize), ParseError>)
    requires
        lo <= hi <= s@.len(),
    ensures
        entry == parse_entry(s@.subrange(lo as int, hi as int)),
{
    let ghost text = s@.subrange(lo as int, hi as int);
    let dash: usize = find_byte(s, lo, hi, 0x2d);
    if dash == hi {
        return match read_number(s, lo, hi) {
            Ok(n) => Ok((n, n)),
            Err(e) => Err(e),
        };
    }
    assert(text.subrange(0, dash - lo) =~= s@.subrange(lo as int, dash as int));
    assert(text.subrange(dash - lo + 1, text.len() as int) =~= s@.subrange(
        dash + 1,
        hi as int,
    ));
    let from: usize = match read_number(s, lo, dash) {
        Ok(n) => n,
        Err(e) => {
            return Err(e);
        },
    };
    let to: usize = match read_number(s, dash + 1, hi) {
        Ok(n) => n,
        Err(e) => {
            return Err(e);
        },
    };
    if from <= to {
        Ok((from, to))
    } else {
        Err(ParseError::InvertedRange)
    }
}

/// The bounds of `s` without the whitespace at both ends.
fn trim_bounds(s: &[u8]) -> (bounds: (usize, usize))
    ensures
        bounds.0 <= bounds.1 <= s@.len(),
        s@.subrange(bounds.0 as int, bounds.1 as int) == trim(s@),
{
    let mut lo: usize = 0;
    while lo < s.len() && is_space_byte(s[lo])
        invariant
            lo <= s@.len(),
            forall|k: int| 0 <= k < lo ==> is_space(s@[k]),
        decreases s@.len() - lo,
    {
        lo += 1;
    }
    let mut hi: usize = s.len();
    while hi > lo && is_space_byte(s[hi - 1])
        invariant
            lo <= hi <= s@.len(),
            forall|k: int| hi <= k < s@.len() ==> is_space(s@[k]),
        decreases hi,
    {
        hi -= 1;
    }
    proof {
        lemma_trim_start_is(s@, lo as int);
        let rest = s@.skip(lo as int);
        lemma_trim_end_is(rest, hi - lo);
        assert(rest.take(hi - lo) =~= s@.subrange(lo as int, hi as int));
    }
    (lo, hi)
}

/// Tests a byte for ASCII whitespace.
fn is_space_byte(b: u8) -> (space: bool)
    ensures
        space == is_space(b),
{
    b == 0x20 || (0x09 <= b && b <= 0x0d)
}

/// What is still to come while the entries are read from left to right:
/// the identifiers read so far joined with the meaning of the rest.
spec fn with_rest(so_far: Set<usize>, rest: Result<Set<usize>, ParseError>) -> Result<
    Set<usize>,
    ParseError,
> {
    match rest {
        Ok(more) => Ok(so_far.union(more)),
        Err(e) => Err(e),
    }
}

/// Parses the list of core identifiers in `bytes`.
pub fn parse_cpu_list_bytes(bytes: &[u8]) -> (result: Result<CoreSet, ParseError>)
    ensures
        match parse_cpu_list(bytes@) {
            Ok(ids) => result matches Ok(set) && set.wf() && set@ == ids,
            Err(e) => result matches Err(found) && found == e,
        },
{
    let (lo, hi) = trim_bounds(bytes);
    let ghost text = bytes@.subrange(lo as int, hi as int);
    let mut set: CoreSet = CoreSet::new();
    let mut at: usize = lo;
    assert(text.subrange(0, text.len() as int) =~= text);
    assert(match parse_entries(text) {
        Ok(more) => Set::<usize>::empty().union(more) =~= more,
        Err(_) => true,
    });
    loop
        invariant
            lo <= at <= hi <= bytes@.len(),
            text == bytes@.subrange(lo as int, hi as int),
            text == trim(bytes@),
            set.wf(),
            parse_entries(text) == with_rest(
                set@,
                parse_entries(text.subrange(at - lo, text.len() as int)),
            ),
        decreases hi - at,
    {
        let ghost rest = text.subrange(at - lo, text.len() as int);
        assert(rest =~= bytes@.subrange(at as int, hi as int));
        let comma: usize = find_byte(bytes, at, hi, 0x2c);
        assert(rest.subrange(0, comma - at) =~= bytes@.subrange(at as int, comma as int));
        let (from, to) = match read_entry(bytes, at, comma) {
            Ok(bounds) => bounds,
            Err(e) => {
                return Err(e);
            },
        };
        let ghost before = set@;
        set.insert_range(from, to);
        if comma == hi {
            return Ok(set);
        }
        proof {
            let tail = rest.subrange(comma - at + 1, rest.len() as int);
            assert(tail =~= text.subrange(comma + 1 - lo, text.len() as int));
            match parse_entries(tail) {
                Ok(more) => {
                    assert(before.union(range_set(from, to).union(more)) =~= before.union(
                        range_set(from, to),
                    ).union(more));
                },
                Err(_) => {},
            }
        }
        at = comma + 1;
    }
}

/// Parses a list of core identifiers, such as `0-2,7,12-14`.
///
/// The text is read as its UTF-8 bytes. Whitespace around the list is
/// ignored; inside the list it is an error.
pub fn parse_cpu_list_format(list: &str) -> (result: Result<CoreSet, ParseError>)
    ensures
        match parse_cpu_list(list.spec_bytes()) {
            Ok(ids) => result matches Ok(set) && set.wf() && set@ == ids,
            Err(e) => result matches Err(found) && found == e,
        },
{
    parse_cpu_list_bytes(list.as_bytes())
}

} // verus!
