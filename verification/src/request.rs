//! Card Text Parser and Sampling Engine: turns a two-line plain-text
//! response into a card record, and folds a stream of fetch outcomes
//! into a deduplicated, count-weighted collection of exactly one
//! hundred card occurrences.
use vstd::prelude::*;
use vstd::string::StringExecFns;
use crate::Card;
use crate::CardModel;

verus! {

/// Why a response could not be parsed: it had fewer than two lines,
/// or its first line was blank.
#[derive(Clone, Copy, Debug, PartialEq, Eq, Structural)]
pub enum ParseError {
    MissingLines,
    EmptyName,
}

/// Index of the first newline in `s`, or `s.len()` when there is
/// none.
pub open spec fn first_newline(s: Seq<char>) -> int
    decreases s.len(),
{
    if s.len() == 0 {
        0
    } else if s[0] == '\n' {
        0
    } else {
        1 + first_newline(s.drop_first())
    }
}

proof fn lemma_first_newline(s: Seq<char>)
    ensures
        0 <= first_newline(s) <= s.len(),
        first_newline(s) < s.len() ==> s[first_newline(s)] == '\n',
        forall|j: int| 0 <= j < first_newline(s) ==> s[j] != '\n',
    decreases s.len(),
{
    if s.len() == 0 {
    } else if s[0] == '\n' {
    } else {
        lemma_first_newline(s.drop_first());
        assert forall|j: int| 0 <= j < first_newline(s) implies s[j] != '\n' by {
            if j > 0 {
                assert(s[j] == s.drop_first()[j - 1]);
            }
        }
    }
}

/// The first index `i` with no newline before it and a newline (or
/// the end of the text) at it is exactly `first_newline`.
proof fn lemma_first_newline_at(s: Seq<char>, i: int)
    requires
        0 <= i <= s.len(),
        forall|j: int| 0 <= j < i ==> s[j] != '\n',
        i < s.len() ==> s[i] == '\n',
    ensures
        first_newline(s) == i,
{
    lemma_first_newline(s);
}

/// The raw first line: everything before the first newline.
pub open spec fn line1_raw(s: Seq<char>) -> Seq<char> {
    s.take(first_newline(s))
}

/// There is a second line: something follows the first newline.
pub open spec fn has_two_lines(s: Seq<char>) -> bool {
    first_newline(s) + 1 < s.len()
}

/// The raw second line: everything between the first newline and the
/// following newline or the end of the text.
pub open spec fn line2_raw(s: Seq<char>) -> Seq<char> {
    let rest = s.skip(first_newline(s) + 1);
    rest.take(first_newline(rest))
}

/// Drops a trailing carriage return, as reading the response line by
/// line would.
pub open spec fn strip_cr(l: Seq<char>) -> Seq<char> {
    if l.len() > 0 && l.last() == '\r' {
        l.drop_last()
    } else {
        l
    }
}

/// Drops leading spaces.
pub open spec fn trim_start(s: Seq<char>) -> Seq<char>
    decreases s.len(),
{
    if s.len() > 0 && s[0] == ' ' {
        trim_start(s.drop_first())
    } else {
        s
    }
}

/// Drops trailing spaces.
pub open spec fn trim_end(s: Seq<char>) -> Seq<char>
    decreases s.len(),
{
    if s.len() > 0 && s.last() == ' ' {
        trim_end(s.drop_last())
    } else {
        s
    }
}

/// Drops leading and trailing spaces.
pub open spec fn spec_trim(s: Seq<char>) -> Seq<char> {
    trim_end(trim_start(s))
}

proof fn lemma_trim_start_skip(s: Seq<char>, a: int)
    requires
        0 <= a <= s.len(),
        forall|j: int| 0 <= j < a ==> s[j] == ' ',
        a < s.len() ==> s[a] != ' ',
    ensures
        trim_start(s) == s.skip(a),
    decreases a,
{
    if a == 0 {
        assert(s.skip(0) =~= s);
    } else {
        assert(s[0] == ' ');
        lemma_trim_start_skip(s.drop_first(), a - 1);
        assert(s.drop_first().skip(a - 1) =~= s.skip(a));
    }
}

proof fn lemma_trim_end_take(s: Seq<char>, b: int)
    requires
        0 <= b <= s.len(),
        forall|j: int| b <= j < s.len() ==> s[j] == ' ',
        b > 0 ==> s[b - 1] != ' ',
    ensures
        trim_end(s) == s.take(b),
    decreases s.len(),
{
    if b == s.len() {
        if s.len() > 0 && s.last() == ' ' {
            assert(false);
        }
        assert(s.take(b) =~= s);
    } else {
        assert(s.last() == ' ');
        lemma_trim_end_take(s.drop_last(), b);
        assert(s.drop_last() =~= s.take(s.len() - 1));
        assert(s.drop_last().take(b) =~= s.take(b));
    }
}

/// Index of the last space in `s`, or -1 when there is none.
pub open spec fn last_space(s: Seq<char>) -> int
    decreases s.len(),
{
    if s.len() == 0 {
        -1
    } else if s.last() == ' ' {
        s.len() - 1
    } else {
        last_space(s.drop_last())
    }
}

proof fn lemma_last_space_at(s: Seq<char>, k: int)
    requires
        -1 <= k < s.len(),
        forall|j: int| k < j < s.len() ==> s[j] != ' ',
        k >= 0 ==> s[k] == ' ',
    ensures
        last_space(s) == k,
    decreases s.len(),
{
    if s.len() == 0 {
    } else if k == s.len() - 1 {
    } else {
        assert(s.last() != ' ');
        lemma_last_space_at(s.drop_last(), k);
    }
}

/// A case-insensitive occurrence of the word `land` starts at `i`.
pub open spec fn land_at(s: Seq<char>, i: int) -> bool {
    &&& (s[i] == 'l' || s[i] == 'L')
    &&& (s[i + 1] == 'a' || s[i + 1] == 'A')
    &&& (s[i + 2] == 'n' || s[i + 2] == 'N')
    &&& (s[i + 3] == 'd' || s[i + 3] == 'D')
}

/// The land-detection heuristic: the type line contains `land`,
/// ignoring case, anywhere — as in `Land`, `Basic Snow Land — Island`
/// or `Island`.
pub open spec fn is_land_type(s: Seq<char>) -> bool {
    exists|i: int| 0 <= i && i + 4 <= s.len() && land_at(s, i)
}

/// Decides the land heuristic on a type line.
pub fn matches_land(s: &str) -> (b: bool)
    ensures
        b == is_land_type(s@),
{
    let n = s.unicode_len();
    if n < 4 {
        return false;
    }
    let mut i: usize = 0;
    while i <= n - 4
        invariant
            n == s@.len(),
            n >= 4,
            0 <= i,
            i <= n - 3,
            forall|j: int| 0 <= j < i ==> !land_at(s@, j),
        decreases n - i,
    {
        let c0 = s.get_char(i);
        let c1 = s.get_char(i + 1);
        let c2 = s.get_char(i + 2);
        let c3 = s.get_char(i + 3);
        if (c0 == 'l' || c0 == 'L') && (c1 == 'a' || c1 == 'A') && (c2 == 'n' || c2 == 'N') && (c3
            == 'd' || c3 == 'D') {
            assert(land_at(s@, i as int));
            return true;
        }
        i = i + 1;
    }
    false
}

/// What the parser yields for a raw response: the trimmed first line
/// split into name and mana-value token (the token only when the line
/// has several tokens and the type line is not a land), the second
/// line, and a count of one.
pub open spec fn spec_parse(s: Seq<char>) -> Result<CardModel, ParseError> {
    if !has_two_lines(s) {
        Err(ParseError::MissingLines)
    } else {
        let l1 = spec_trim(strip_cr(line1_raw(s)));
        let l2 = strip_cr(line2_raw(s));
        if l1.len() == 0 {
            Err(ParseError::EmptyName)
        } else {
            let k = last_space(l1);
            if k < 0 || is_land_type(l2) {
                Ok(
                    CardModel {
                        name: l1,
                        cmc: Seq::<char>::empty(),
                        type_line: l2,
                        count: 1,
                    },
                )
            } else {
                Ok(
                    CardModel {
                        name: l1.take(k),
                        cmc: l1.skip(k + 1),
                        type_line: l2,
                        count: 1,
                    },
                )
            }
        }
    }
}

/// Drops a trailing carriage return from a line.
fn strip_cr_line<'a>(l: &'a str) -> (r: &'a str)
    ensures
        r@ == strip_cr(l@),
{
    let n = l.unicode_len();
    if n > 0 && l.get_char(n - 1) == '\r' {
        let r = l.substring_char(0, n - 1);
        proof {
            assert(l@.subrange(0, n - 1) =~= l@.drop_last());
        }
        r
    } else {
        l
    }
}

/// Drops leading and trailing spaces from a line.
fn trim_line<'a>(l: &'a str) -> (r: &'a str)
    ensures
        r@ == spec_trim(l@),
{
    let n = l.unicode_len();
    let mut a: usize = 0;
    while a < n && l.get_char(a) == ' '
        invariant
            n == l@.len(),
            0 <= a <= n,
            forall|j: int| 0 <= j < a ==> l@[j] == ' ',
        decreases n - a,
    {
        a = a + 1;
    }
    proof {
        lemma_trim_start_skip(l@, a as int);
    }
    if a == n {
        proof {
            lemma_trim_end_take(l@.skip(a as int), 0);
            assert(l@.skip(a as int).take(0) =~= l@.subrange(a as int, a as int));
        }
        return l.substring_char(a, a);
    }
    let mut b: usize = n;
    while b > a && l.get_char(b - 1) == ' '
        invariant
            n == l@.len(),
            0 <= a <= b <= n,
            forall|j: int| b <= j < n ==> l@[j] == ' ',
        decreases b,
    {
        b = b - 1;
    }
    let r = l.substring_char(a, b);
    proof {
        let t = l@.skip(a as int);
        lemma_trim_end_take(t, b - a);
        assert(t.take(b - a) =~= l@.subrange(a as int, b as int));
    }
    r
}

/// Parses one raw two-line response into a card record. Fails
/// exactly when the response has fewer than two lines or when its
/// first line is blank after trimming.
pub fn parse_card(response: &str) -> (r: Result<Card, ParseError>)
    ensures
        r is Ok ==> spec_parse(response@) == Ok::<CardModel, ParseError>(r->Ok_0@),
        r is Err ==> spec_parse(response@) == Err::<CardModel, ParseError>(r->Err_0),
{
    let n = response.unicode_len();
    let mut i: usize = 0;
    while i < n && response.get_char(i) != '\n'
        invariant
            n == response@.len(),
            0 <= i <= n,
            forall|j: int| 0 <= j < i ==> response@[j] != '\n',
        decreases n - i,
    {
        i = i + 1;
    }
    proof {
        lemma_first_newline_at(response@, i as int);
    }
    if n - i <= 1 {
        return Err(ParseError::MissingLines);
    }
    let line1 = response.substring_char(0, i);
    let mut j: usize = i + 1;
    while j < n && response.get_char(j) != '\n'
        invariant
            n == response@.len(),
            i + 1 <= j <= n,
            forall|m: int| i + 1 <= m < j ==> response@[m] != '\n',
        decreases n - j,
    {
        j = j + 1;
    }
    let line2 = response.substring_char(i + 1, j);
    proof {
        let rest = response@.skip(i + 1);
        assert(forall|m: int| 0 <= m < j - i - 1 ==> rest[m] != '\n');
        if j < n {
            assert(rest[j - i - 1] == '\n');
        }
        lemma_first_newline_at(rest, j - i - 1);
        assert(rest.take(j - i - 1) =~= response@.subrange(i + 1, j as int));
        assert(line1@ =~= line1_raw(response@));
        assert(line2@ == line2_raw(response@));
    }
    let line2 = strip_cr_line(line2);
    let l1 = trim_line(strip_cr_line(line1));
    let len1 = l1.unicode_len();
    if len1 == 0 {
        return Err(ParseError::EmptyName);
    }
    let mut k: usize = len1;
    while k > 0 && l1.get_char(k - 1) != ' '
        invariant
            len1 == l1@.len(),
            0 <= k <= len1,
            forall|j2: int| k <= j2 < len1 ==> l1@[j2] != ' ',
        decreases k,
    {
        k = k - 1;
    }
    proof {
        lemma_last_space_at(l1@, k - 1);
    }
    let card = if k == 0 || matches_land(line2) {
        Card {
            name: String::from_str(l1),
            cmc: String::new(),
            type_line: String::from_str(line2),
            count: 1,
        }
    } else {
        let name = l1.substring_char(0, k - 1);
        let cmc = l1.substring_char(k, len1);
        proof {
            assert(l1@.subrange(0, k - 1) =~= l1@.take(k - 1));
            assert(l1@.subrange(k as int, len1 as int) =~= l1@.skip(k as int));
        }
        Card {
            name: String::from_str(name),
            cmc: String::from_str(cmc),
            type_line: String::from_str(line2),
            count: 1,
        }
    };
    Ok(card)
}

/// Sum of the per-entry counts: the number of card occurrences the
/// collection stands for.
pub open spec fn sum_counts(s: Seq<CardModel>) -> int
    decreases s.len(),
{
    if s.len() == 0 {
        0
    } else {
        sum_counts(s.drop_last()) + s.last().count
    }
}

/// No two entries share a name.
pub open spec fn names_unique(s: Seq<CardModel>) -> bool {
    forall|i: int, j: int| 0 <= i < j < s.len() ==> s[i].name != s[j].name
}

/// Index of the first entry with the given name, or -1.
pub open spec fn spec_find(s: Seq<CardModel>, name: Seq<char>) -> int
    decreases s.len(),
{
    if s.len() == 0 {
        -1
    } else if s[0].name == name {
        0
    } else {
        let r = spec_find(s.drop_first(), name);
        if r < 0 {
            -1
        } else {
            r + 1
        }
    }
}

proof fn lemma_spec_find(s: Seq<CardModel>, name: Seq<char>)
    ensures
        -1 <= spec_find(s, name) < s.len(),
        spec_find(s, name) >= 0 ==> s[spec_find(s, name)].name == name,
        forall|j: int| 0 <= j < spec_find(s, name) ==> s[j].name != name,
        spec_find(s, name) == -1 ==> forall|j: int| 0 <= j < s.len() ==> s[j].name != name,
    decreases s.len(),
{
    if s.len() == 0 {
    } else if s[0].name == name {
    } else {
        lemma_spec_find(s.drop_first(), name);
        assert forall|j: int| 1 <= j < s.len() implies s.drop_first()[j - 1] == s[j] by {}
    }
}

proof fn lemma_sum_push(s: Seq<CardModel>, c: CardModel)
    ensures
        sum_counts(s.push(c)) == sum_counts(s) + c.count,
{
    assert(s.push(c).drop_last() =~= s);
}

proof fn lemma_sum_remove(s: Seq<CardModel>, i: int)
    requires
        0 <= i < s.len(),
    ensures
        sum_counts(s.remove(i)) == sum_counts(s) - s[i].count,
    decreases s.len(),
{
    if i == s.len() - 1 {
        assert(s.remove(i) =~= s.drop_last());
    } else {
        lemma_sum_remove(s.drop_last(), i);
        assert(s.remove(i).drop_last() =~= s.drop_last().remove(i));
        assert(s.remove(i).last() == s.last());
    }
}

/// The deduplicated collection: one entry per canonical name.
pub struct CardList {
    pub entries: Vec<Card>,
}

impl View for CardList {
    type V = Seq<CardModel>;

    open spec fn view(&self) -> Seq<CardModel> {
        self.entries@.map_values(|c: Card| c@)
    }
}

impl CardList {
    /// Unique names throughout.
    pub open spec fn wf(&self) -> bool {
        names_unique(self@)
    }

    /// The empty collection.
    pub fn new() -> (r: CardList)
        ensures
            r@ == Seq::<CardModel>::empty(),
            r.wf(),
    {
        let r = CardList { entries: Vec::new() };
        proof {
            assert(r@ =~= Seq::<CardModel>::empty());
        }
        r
    }

    /// Number of distinct entries.
    pub fn len(&self) -> (n: usize)
        ensures
            n == self@.len(),
    {
        self.entries.len()
    }

    /// The entry at an index.
    pub fn get(&self, i: usize) -> (c: &Card)
        requires
            i < self@.len(),
        ensures
            c@ == self@[i as int],
    {
        &self.entries[i]
    }

    /// Index of the entry carrying the given name, if any.
    pub fn find(&self, name: &str) -> (r: Option<usize>)
        ensures
            match r {
                Some(i) => i == spec_find(self@, name@),
                None => spec_find(self@, name@) == -1,
            },
    {
        let n = self.entries.len();
        let mut i: usize = 0;
        while i < n
            invariant
                n == self@.len(),
                0 <= i <= n,
                forall|j: int| 0 <= j < i ==> self@[j].name != name@,
            decreases n - i,
        {
            if crate::str_eq(self.entries[i].name.as_str(), name) {
                proof {
                    assert(self@[i as int] == self.entries@[i as int]@);
                    lemma_spec_find(self@, name@);
                }
                return Some(i);
            }
            i = i + 1;
        }
        proof {
            lemma_spec_find(self@, name@);
        }
        None
    }

    /// Total number of card occurrences.
    pub fn total(&self) -> (t: u64)
        requires
            sum_counts(self@) <= u64::MAX,
        ensures
            t == sum_counts(self@),
    {
        let n = self.entries.len();
        let mut t: u64 = 0;
        let mut i: usize = 0;
        while i < n
            invariant
                n == self@.len(),
                0 <= i <= n,
                t == sum_counts(self@.take(i as int)),
                sum_counts(self@) <= u64::MAX,
            decreases n - i,
        {
            proof {
                assert forall|j: int| 0 <= j < self@.len() implies self@[j].count >= 0 by {
                    assert(self@[j] == self.entries@[j]@);
                }
                lemma_sum_take_bound(self@, i as int);
                assert(self@.take(i + 1).drop_last() =~= self@.take(i as int));
                assert(self@.take(i + 1).last() == self@[i as int]);
            }
            t = t + self.entries[i].count as u64;
            i = i + 1;
        }
        proof {
            assert(self@.take(n as int) =~= self@);
        }
        t
    }
}

/// The partial sums of non-negative counts never pass the total.
proof fn lemma_sum_take_bound(s: Seq<CardModel>, i: int)
    requires
        0 <= i < s.len(),
        forall|j: int| 0 <= j < s.len() ==> s[j].count >= 0,
    ensures
        sum_counts(s.take(i)) + s[i].count <= sum_counts(s),
        sum_counts(s.take(i)) >= 0,
    decreases s.len(),
{
    assert(s.take(i + 1).drop_last() =~= s.take(i));
    assert(s.take(i + 1).last() == s[i]);
    lemma_sum_take_nonneg(s.take(i));
    lemma_sum_suffix(s, i + 1);
}

/// What one fetch attempt produced: the raw response text, or a
/// transport failure (network error, non-success status, timeout).
pub enum FetchOutcome {
    Text(String),
    Failed,
}

/// Why a sampling run aborted: a fetch failure, or an unparseable
/// response. Either is fatal for the whole run.
#[derive(Clone, Copy, Debug, PartialEq, Eq, Structural)]
pub enum SampleError {
    Fetch,
    Parse,
}

/// Mathematical state of a sampling run: the entries so far, the
/// number of accepted non-rare occurrences, the duplicate budget
/// already spent, and whether the single rare pick is in.
pub ghost struct RunModel {
    pub cards: Seq<CardModel>,
    pub total: int,
    pub dups: int,
    pub rare_done: bool,
}

/// The state a run starts from.
pub open spec fn init_model() -> RunModel {
    RunModel { cards: Seq::<CardModel>::empty(), total: 0, dups: 0, rare_done: false }
}

/// A run is finished once the rare pick is in and 99 further
/// occurrences are accepted.
pub open spec fn spec_done(m: RunModel) -> bool {
    m.rare_done && m.total >= 99
}

/// How one parsed card changes the run state. The first card is the
/// rare pick and always enters as a new entry. After that: a new name
/// becomes a new entry; a seen name is folded into its entry while
/// duplicate budget remains; with the budget spent the card is
/// discarded and the state is unchanged.
pub open spec fn spec_apply(m: RunModel, c: CardModel) -> RunModel {
    if !m.rare_done {
        RunModel { cards: m.cards.push(c), total: m.total, dups: m.dups, rare_done: true }
    } else {
        let i = spec_find(m.cards, c.name);
        if i < 0 {
            RunModel { cards: m.cards.push(c), total: m.total + 1, dups: m.dups, rare_done: true }
        } else if m.dups < 5 {
            let upd = CardModel {
                name: m.cards[i].name,
                cmc: m.cards[i].cmc,
                type_line: m.cards[i].type_line,
                count: m.cards[i].count + 1,
            };
            RunModel {
                cards: m.cards.remove(i).push(upd),
                total: m.total + 1,
                dups: m.dups + 1,
                rare_done: true,
            }
        } else {
            m
        }
    }
}

/// What a whole run yields from a stream of fetch outcomes: the
/// finished collection, or the first fatal error. An exhausted
/// stream counts as a fetch failure.
pub open spec fn spec_run(outcomes: Seq<FetchOutcome>, m: RunModel) -> Result<
    Seq<CardModel>,
    SampleError,
>
    decreases outcomes.len(),
{
    if spec_done(m) {
        Ok(m.cards)
    } else if outcomes.len() == 0 {
        Err(SampleError::Fetch)
    } else {
        match outcomes[0] {
            FetchOutcome::Failed => Err(SampleError::Fetch),
            FetchOutcome::Text(s) => match spec_parse(s@) {
                Err(_) => Err(SampleError::Parse),
                Ok(c) => spec_run(outcomes.drop_first(), spec_apply(m, c)),
            },
        }
    }
}

/// Everything that holds of a run state throughout a run.
pub open spec fn run_inv(m: RunModel) -> bool {
    &&& names_unique(m.cards)
    &&& 0 <= m.total <= 99
    &&& 0 <= m.dups <= 5
    &&& (!m.rare_done ==> m.cards.len() == 0 && m.total == 0 && m.dups == 0)
    &&& sum_counts(m.cards) == (if m.rare_done {
        1int
    } else {
        0int
    }) + m.total
    &&& m.cards.len() == (if m.rare_done {
        1int
    } else {
        0int
    }) + m.total - m.dups
    &&& forall|i: int| 0 <= i < m.cards.len() ==> 1 <= #[trigger] m.cards[i].count <= 1 + m.dups
}

/// One accepted card keeps the run invariant.
proof fn lemma_apply_inv(m: RunModel, c: CardModel)
    requires
        run_inv(m),
        !spec_done(m),
        c.count == 1,
    ensures
        run_inv(spec_apply(m, c)),
{
    let m2 = spec_apply(m, c);
    if !m.rare_done {
        lemma_sum_push(m.cards, c);
    } else {
        let i = spec_find(m.cards, c.name);
        lemma_spec_find(m.cards, c.name);
        if i < 0 {
            lemma_sum_push(m.cards, c);
        } else if m.dups < 5 {
            let upd = CardModel {
                name: m.cards[i].name,
                cmc: m.cards[i].cmc,
                type_line: m.cards[i].type_line,
                count: m.cards[i].count + 1,
            };
            lemma_sum_remove(m.cards, i);
            lemma_sum_push(m.cards.remove(i), upd);
            assert forall|a: int, b: int| 0 <= a < b < m2.cards.len() implies m2.cards[a].name
                != m2.cards[b].name by {
                if b < m2.cards.len() - 1 {
                    assert(m2.cards[a] == m.cards.remove(i)[a]);
                    assert(m2.cards[b] == m.cards.remove(i)[b]);
                } else {
                    assert(m2.cards[a] == m.cards.remove(i)[a]);
                    assert(m2.cards[b].name == m.cards[i].name);
                }
            }
        }
    }
}

/// The live sampling-run state: the collection so far, the accepted
/// non-rare count, the spent duplicate budget, and the rare-pick
/// phase flag.
pub struct Sampler {
    pub list: CardList,
    pub total: u8,
    pub dups: u8,
    pub rare_done: bool,
}

impl View for Sampler {
    type V = RunModel;

    open spec fn view(&self) -> RunModel {
        RunModel {
            cards: self.list@,
            total: self.total as int,
            dups: self.dups as int,
            rare_done: self.rare_done,
        }
    }
}

impl Sampler {
    /// The run invariant, on the live state.
    pub open spec fn inv(&self) -> bool {
        run_inv(self@)
    }

    /// A fresh run.
    pub fn new() -> (s: Sampler)
        ensures
            s@ == init_model(),
            s.inv(),
    {
        let s = Sampler { list: CardList::new(), total: 0, dups: 0, rare_done: false };
        proof {
            assert(s@.cards =~= init_model().cards);
        }
        s
    }

    /// The next fetch must come from the rare pool.
    pub fn needs_rare(&self) -> (b: bool)
        ensures
            b == !self@.rare_done,
    {
        !self.rare_done
    }

    /// The run has accepted its full target.
    pub fn is_done(&self) -> (b: bool)
        ensures
            b == spec_done(self@),
    {
        self.rare_done && self.total >= 99
    }

    /// Number of occurrences accepted so far, the rare pick included.
    pub fn accepted(&self) -> (n: u8)
        requires
            self.inv(),
        ensures
            n == sum_counts(self@.cards),
    {
        if self.rare_done {
            1 + self.total
        } else {
            0
        }
    }

    /// Feeds one raw response into the run: parses it and folds the
    /// card into the state. A parse failure leaves the state
    /// untouched and is fatal for the caller.
    pub fn accept(&mut self, response: &str) -> (r: Result<(), ParseError>)
        requires
            old(self).inv(),
            !spec_done(old(self)@),
        ensures
            final(self).inv(),
            match r {
                Ok(_) => spec_parse(response@) is Ok && final(self)@ == spec_apply(
                    old(self)@,
                    spec_parse(response@)->Ok_0,
                ),
                Err(e) => spec_parse(response@) == Err::<CardModel, ParseError>(e) && final(self)@
                    == old(self)@,
            },
    {
        let card = match parse_card(response) {
            Err(e) => {
                return Err(e);
            },
            Ok(c) => c,
        };
        let ghost c = card@;
        let ghost m = self@;
        proof {
            lemma_apply_inv(m, c);
        }
        if !self.rare_done {
            self.list.entries.push(card);
            self.rare_done = true;
            proof {
                assert(self@.cards =~= m.cards.push(c));
            }
        } else {
            match self.list.find(card.name.as_str()) {
                None => {
                    self.list.entries.push(card);
                    self.total = self.total + 1;
                    proof {
                        assert(self@.cards =~= m.cards.push(c));
                    }
                },
                Some(i) => {
                    proof {
                        lemma_spec_find(m.cards, c.name);
                    }
                    if self.dups < 5 {
                        let prev = self.list.entries.remove(i);
                        let bumped = Card {
                            name: prev.name,
                            cmc: prev.cmc,
                            type_line: prev.type_line,
                            count: prev.count + 1,
                        };
                        self.list.entries.push(bumped);
                        self.total = self.total + 1;
                        self.dups = self.dups + 1;
                        proof {
                            let i2 = spec_find(m.cards, c.name);
                            let upd = CardModel {
                                name: m.cards[i2].name,
                                cmc: m.cards[i2].cmc,
                                type_line: m.cards[i2].type_line,
                                count: m.cards[i2].count + 1,
                            };
                            assert(self@.cards =~= m.cards.remove(i2).push(upd));
                        }
                    }
                },
            }
        }
        proof {
            assert(self@ == spec_apply(m, c));
        }
        Ok(())
    }

    /// Hands the finished collection out.
    pub fn finish(self) -> (r: CardList)
        requires
            self.inv(),
            spec_done(self@),
        ensures
            r@ == self@.cards,
            r.wf(),
            sum_counts(r@) == 100,
    {
        self.list
    }
}

/// Runs a whole sampling pass over a stream of fetch outcomes: one
/// rare pick, then non-rare fetches until 99 further occurrences are
/// accepted, folding duplicates while the budget of five lasts and
/// discarding them afterwards. Returns the finished collection, or
/// the first fatal error; a stream that ends early counts as a fetch
/// failure.
pub fn fetch_cards(outcomes: Vec<FetchOutcome>) -> (r: Result<CardList, SampleError>)
    ensures
        match r {
            Ok(list) => spec_run(outcomes@, init_model()) == Ok::<Seq<CardModel>, SampleError>(
                list@,
            ) && list.wf() && sum_counts(list@) == 100,
            Err(e) => spec_run(outcomes@, init_model()) == Err::<Seq<CardModel>, SampleError>(e),
        },
{
    let mut s = Sampler::new();
    let n = outcomes.len();
    let mut i: usize = 0;
    proof {
        assert(outcomes@.skip(0) =~= outcomes@);
    }
    while i < n && !s.is_done()
        invariant
            n == outcomes@.len(),
            0 <= i <= n,
            s.inv(),
            spec_run(outcomes@, init_model()) == spec_run(outcomes@.skip(i as int), s@),
        decreases n - i,
    {
        let ghost m = s@;
        proof {
            assert(outcomes@.skip(i as int)[0] == outcomes@[i as int]);
            assert(outcomes@.skip(i as int).drop_first() =~= outcomes@.skip(i + 1));
        }
        match &outcomes[i] {
            FetchOutcome::Failed => {
                return Err(SampleError::Fetch);
            },
            FetchOutcome::Text(t) => {
                match s.accept(t.as_str()) {
                    Err(_) => {
                        return Err(SampleError::Parse);
                    },
                    Ok(_) => {},
                }
            },
        }
        i = i + 1;
    }
    if s.is_done() {
        proof {
            assert(spec_run(outcomes@.skip(i as int), s@) == Ok::<Seq<CardModel>, SampleError>(
                s@.cards,
            ));
        }
        Ok(s.finish())
    } else {
        proof {
            assert(outcomes@.skip(i as int).len() == 0);
        }
        Err(SampleError::Fetch)
    }
}

proof fn lemma_run_ok(outcomes: Seq<FetchOutcome>, m: RunModel, cards: Seq<CardModel>)
    requires
        run_inv(m),
        spec_run(outcomes, m) == Ok::<Seq<CardModel>, SampleError>(cards),
    ensures
        sum_counts(cards) == 100,
        names_unique(cards),
        95 <= cards.len() <= 100,
        forall|i: int| 0 <= i < cards.len() ==> 1 <= #[trigger] cards[i].count <= 6,
    decreases outcomes.len(),
{
    if spec_done(m) {
    } else {
        match outcomes[0] {
            FetchOutcome::Failed => {},
            FetchOutcome::Text(s) => {
                let c = spec_parse(s@)->Ok_0;
                assert(c.count == 1);
                lemma_apply_inv(m, c);
                lemma_run_ok(outcomes.drop_first(), spec_apply(m, c), cards);
            },
        }
    }
}

/// Whenever the fetch stream never fails and every response parses,
/// the finished collection counts exactly one hundred occurrences;
/// at most five of them were folded in as duplicates, so it holds at
/// least ninety-five distinct names, each counted between one and
/// six times.
pub proof fn lemma_sample_totals(outcomes: Seq<FetchOutcome>, cards: Seq<CardModel>)
    requires
        spec_run(outcomes, init_model()) == Ok::<Seq<CardModel>, SampleError>(cards),
    ensures
        sum_counts(cards) == 100,
        names_unique(cards),
        95 <= cards.len() <= 100,
        forall|i: int| 0 <= i < cards.len() ==> 1 <= #[trigger] cards[i].count <= 6,
{
    assert(run_inv(init_model()));
    lemma_run_ok(outcomes, init_model(), cards);
}

/// Once the duplicate budget of five is spent, a repeated name is
/// discarded outright: the run state does not change, and the retry
/// consumes the next fetch instead.
pub proof fn lemma_budget_spent_discards(m: RunModel, c: CardModel)
    requires
        m.rare_done,
        m.dups >= 5,
        spec_find(m.cards, c.name) >= 0,
    ensures
        spec_apply(m, c) == m,
{
}

proof fn lemma_sum_take_nonneg(s: Seq<CardModel>)
    requires
        forall|j: int| 0 <= j < s.len() ==> s[j].count >= 0,
    ensures
        sum_counts(s) >= 0,
    decreases s.len(),
{
    if s.len() > 0 {
        lemma_sum_take_nonneg(s.drop_last());
    }
}

proof fn lemma_sum_suffix(s: Seq<CardModel>, i: int)
    requires
        0 <= i <= s.len(),
        forall|j: int| 0 <= j < s.len() ==> s[j].count >= 0,
    ensures
        sum_counts(s.take(i)) <= sum_counts(s),
    decreases s.len() - i,
{
    if i == s.len() {
        assert(s.take(i) =~= s);
    } else {
        lemma_sum_suffix(s, i + 1);
        assert(s.take(i + 1).drop_last() =~= s.take(i));
        assert(s.take(i + 1).last() == s[i]);
    }
}

} // verus!
