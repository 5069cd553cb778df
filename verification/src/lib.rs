//! Themed random-card sampling library.
//!
//! Builds percent-encoded search queries from a validated filter
//! configuration, parses two-line plain-text card responses into
//! structured records, and assembles a deduplicated, count-weighted
//! sample of a fixed target size from a stream of fetch outcomes.
//! Network, environment and file access stay outside the library;
//! callers hand in plain values and receive plain values back.
use vstd::prelude::*;
use vstd::string::StringExecFns;

pub mod gui;
pub mod io;
pub mod query;
pub mod request;

verus! {

/// A character that may appear in a price: an ASCII digit.
pub open spec fn is_digit_char(c: char) -> bool {
    '0' <= c && c <= '9'
}

/// Number of '.' characters in `s`.
pub open spec fn dot_count(s: Seq<char>) -> int
    decreases s.len(),
{
    if s.len() == 0 {
        0
    } else {
        dot_count(s.drop_last()) + if s.last() == '.' {
            1int
        } else {
            0int
        }
    }
}

/// A valid non-negative decimal price: only digits and at most one
/// '.', with at least one digit somewhere.
pub open spec fn is_decimal(s: Seq<char>) -> bool {
    &&& forall|i: int| 0 <= i < s.len() ==> is_digit_char(s[i]) || s[i] == '.'
    &&& dot_count(s) <= 1
    &&& exists|i: int| 0 <= i < s.len() && is_digit_char(s[i])
}

proof fn lemma_dot_count_take(s: Seq<char>, n: int)
    requires
        0 <= n <= s.len(),
    ensures
        dot_count(s.take(n)) <= dot_count(s),
    decreases s.len() - n,
{
    if n == s.len() {
        assert(s.take(n) =~= s);
    } else {
        lemma_dot_count_take(s, n + 1);
        assert(s.take(n + 1).drop_last() =~= s.take(n));
        assert(dot_count(s.take(n)) <= dot_count(s.take(n + 1)));
    }
}

/// Decides whether `s` is a valid non-negative decimal price.
pub fn check_price(s: &str) -> (ok: bool)
    ensures
        ok == is_decimal(s@),
{
    let n = s.unicode_len();
    let mut i: usize = 0;
    let mut dots: usize = 0;
    let mut digits: usize = 0;
    while i < n
        invariant
            i <= n,
            n == s@.len(),
            dots == dot_count(s@.take(i as int)),
            dots <= i,
            digits <= i,
            forall|j: int| 0 <= j < i ==> is_digit_char(s@[j]) || s@[j] == '.',
            digits > 0 <==> exists|j: int| 0 <= j < i && is_digit_char(s@[j]),
        decreases n - i,
    {
        let c = s.get_char(i);
        if c == '.' {
            dots = dots + 1;
        } else if '0' <= c && c <= '9' {
            digits = digits + 1;
        } else {
            proof {
                lemma_dot_count_take(s@, i as int);
            }
            return false;
        }
        proof {
            assert(s@.take(i + 1).drop_last() =~= s@.take(i as int));
        }
        i = i + 1;
    }
    proof {
        assert(s@.take(n as int) =~= s@);
    }
    dots <= 1 && digits > 0
}

/// Character-for-character string equality.
pub fn str_eq(a: &str, b: &str) -> (r: bool)
    ensures
        r == (a@ == b@),
{
    let na = a.unicode_len();
    let nb = b.unicode_len();
    if na != nb {
        return false;
    }
    let mut i: usize = 0;
    while i < na
        invariant
            i <= na,
            na == a@.len(),
            na == b@.len(),
            forall|j: int| 0 <= j < i ==> a@[j] == b@[j],
        decreases na - i,
    {
        if a.get_char(i) != b.get_char(i) {
            return false;
        }
        i = i + 1;
    }
    proof {
        assert(a@ =~= b@);
    }
    true
}

/// Validated filter configuration: a flag for silver-bordered cards
/// and four price limits, each held as the decimal text that the
/// query grammar embeds verbatim.
pub struct Config {
    pub include_sb: bool,
    pub cmn_price: String,
    pub unc_price: String,
    pub rare_price: String,
    pub land_price: String,
}

impl Config {
    /// All four price limits are valid non-negative decimals.
    pub open spec fn wf(&self) -> bool {
        &&& is_decimal(self.cmn_price@)
        &&& is_decimal(self.unc_price@)
        &&& is_decimal(self.rare_price@)
        &&& is_decimal(self.land_price@)
    }

    /// Takes a prepared configuration as it is, or falls back to the
    /// stock one: silver-bordered cards included, prices 0.1 / 0.1 /
    /// 0.25 / 0.2.
    pub fn new(preset: Option<Config>) -> (c: Config)
        requires
            preset is Some ==> preset.unwrap().wf(),
        ensures
            c.wf(),
            preset is Some ==> c == preset.unwrap(),
            preset is None ==> c.include_sb && c.cmn_price@ == "0.1"@ && c.unc_price@ == "0.1"@
                && c.rare_price@ == "0.25"@ && c.land_price@ == "0.2"@,
    {
        match preset {
            Some(c) => c,
            None => {
                proof {
                    reveal_strlit("0.1");
                    reveal_strlit("0.25");
                    reveal_strlit("0.2");
                    lemma_short_decimal("0.1"@);
                    lemma_short_decimal("0.25"@);
                    lemma_short_decimal("0.2"@);
                }
                Config {
                    include_sb: true,
                    cmn_price: String::from_str("0.1"),
                    unc_price: String::from_str("0.1"),
                    rare_price: String::from_str("0.25"),
                    land_price: String::from_str("0.2"),
                }
            },
        }
    }

    /// Validates four price texts independently. The error vector
    /// flags each invalid field; a configuration is produced exactly
    /// when every field is valid.
    pub fn parse(include_sb: bool, prices: Vec<&str>) -> (r: ConfigParse)
        requires
            prices@.len() == 4,
        ensures
            r.errors@.len() == 4,
            forall|i: int| 0 <= i < 4 ==> r.errors@[i] == !is_decimal(prices@[i]@),
            r.config is Some <==> (forall|i: int| 0 <= i < 4 ==> is_decimal(prices@[i]@)),
            r.config is Some ==> {
                let c = r.config.unwrap();
                &&& c.include_sb == include_sb
                &&& c.cmn_price@ == prices@[0]@
                &&& c.unc_price@ == prices@[1]@
                &&& c.rare_price@ == prices@[2]@
                &&& c.land_price@ == prices@[3]@
                &&& c.wf()
            },
    {
        let mut errors: Vec<bool> = Vec::new();
        let mut i: usize = 0;
        while i < prices.len()
            invariant
                i <= prices@.len(),
                prices@.len() == 4,
                errors@.len() == i,
                forall|j: int| 0 <= j < i ==> errors@[j] == !is_decimal(prices@[j]@),
            decreases prices@.len() - i,
        {
            let ok = check_price(prices[i]);
            errors.push(!ok);
            i = i + 1;
        }
        let all_ok = !errors[0] && !errors[1] && !errors[2] && !errors[3];
        let config = if all_ok {
            Some(
                Config {
                    include_sb,
                    cmn_price: String::from_str(prices[0]),
                    unc_price: String::from_str(prices[1]),
                    rare_price: String::from_str(prices[2]),
                    land_price: String::from_str(prices[3]),
                },
            )
        } else {
            None
        };
        ConfigParse { config, errors }
    }
}

/// Outcome of validating a configuration: the configuration when all
/// fields were valid, and one error flag per price field either way.
pub struct ConfigParse {
    pub config: Option<Config>,
    pub errors: Vec<bool>,
}

/// Reads a flag the way the environment collaborator supplies it:
/// only the exact text `false` switches the flag off; an absent or
/// unreadable value keeps the default of `true`.
pub fn parse_flag(value: Option<&str>) -> (b: bool)
    ensures
        b == match value {
            Some(v) => v@ != "false"@,
            None => true,
        },
{
    match value {
        Some(v) => !str_eq(v, "false"),
        None => true,
    }
}

/// Reads a price the way the environment collaborator supplies it: a
/// valid decimal is taken verbatim, anything else falls back to the
/// given default.
pub fn parse_price(value: Option<&str>, default: &str) -> (p: String)
    requires
        is_decimal(default@),
    ensures
        is_decimal(p@),
        p@ == match value {
            Some(v) => if is_decimal(v@) {
                v@
            } else {
                default@
            },
            None => default@,
        },
{
    match value {
        Some(v) => if check_price(v) {
            String::from_str(v)
        } else {
            String::from_str(default)
        },
        None => String::from_str(default),
    }
}

/// Proves `is_decimal` for a revealed literal of the shape
/// digit '.' digits, up to four characters long.
proof fn lemma_short_decimal(s: Seq<char>)
    requires
        3 <= s.len() <= 4,
        is_digit_char(s[0]),
        s[1] == '.',
        forall|i: int| 2 <= i < s.len() ==> is_digit_char(s[i]),
    ensures
        is_decimal(s),
{
    assert(s.take(1).drop_last() =~= s.take(0));
    assert(s.take(2).drop_last() =~= s.take(1));
    assert(s.take(3).drop_last() =~= s.take(2));
    assert(dot_count(s.take(0)) == 0);
    assert(dot_count(s.take(1)) == 0);
    assert(dot_count(s.take(2)) == 1);
    assert(dot_count(s.take(3)) == 1);
    if s.len() == 3 {
        assert(s.take(3) =~= s);
    } else {
        assert(s.take(4).drop_last() =~= s.take(3));
        assert(dot_count(s.take(4)) == 1);
        assert(s.take(4) =~= s);
    }
}

/// One parsed card: the name that keys deduplication, the mana-value
/// token (empty when the source carried none, e.g. for a land), the
/// second response line verbatim, and how often the name was drawn.
pub struct Card {
    pub name: String,
    pub cmc: String,
    pub type_line: String,
    pub count: u8,
}

/// Mathematical image of a [`Card`].
pub ghost struct CardModel {
    pub name: Seq<char>,
    pub cmc: Seq<char>,
    pub type_line: Seq<char>,
    pub count: int,
}

impl View for Card {
    type V = CardModel;

    open spec fn view(&self) -> CardModel {
        CardModel {
            name: self.name@,
            cmc: self.cmc@,
            type_line: self.type_line@,
            count: self.count as int,
        }
    }
}


} // verus!
