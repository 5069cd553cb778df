//! Query Builder: turns a validated configuration into the two
//! percent-encoded search expressions, one for the rare pool and one
//! for the common/uncommon/land pool.
use vstd::prelude::*;
use vstd::string::StringExecFns;
use crate::Config;
use crate::is_decimal;
use crate::is_digit_char;
use crate::str_eq;

verus! {

/// The two emitted search expressions.
pub struct Query {
    pub rare: String,
    pub other: String,
}

/// Percent-encoding of the reserved query-grammar symbols; any other
/// text encodes to nothing.
pub open spec fn spec_pes(s: Seq<char>) -> Seq<char> {
    if s == "("@ {
        "%28"@
    } else if s == ")"@ {
        "%29"@
    } else if s == "+"@ {
        "%2B"@
    } else if s == ":"@ {
        "%3A"@
    } else if s == "="@ {
        "%3D"@
    } else {
        Seq::<char>::empty()
    }
}

/// The clause excluding silver-bordered cards, or nothing when they
/// are included.
pub open spec fn spec_sb(silver: bool) -> Seq<char> {
    if silver {
        Seq::<char>::empty()
    } else {
        "-border"@ + spec_pes(":"@) + "silver"@
    }
}

/// The base clause of every query, without the `q=` frame: the two
/// always-excluded card types, plus the border exclusion when
/// silver-bordered cards are left out.
pub open spec fn spec_start_body(silver: bool) -> Seq<char> {
    let base = "-t"@ + spec_pes(":"@) + "conspiracy+-t"@ + spec_pes(":"@) + "contraption"@;
    if silver {
        base
    } else {
        base + "+"@ + spec_sb(false)
    }
}

/// The opening of every query: the `q=` frame around the base clause.
pub open spec fn spec_start_query(silver: bool) -> Seq<char> {
    "q="@ + spec_start_body(silver)
}

/// The fixed suffix requesting a plain-text response.
pub open spec fn spec_end_query() -> Seq<char> {
    "&format=text"@
}

/// Non-land cards at common rarity under the given price.
pub open spec fn spec_cmn(price: Seq<char>) -> Seq<char> {
    "-t"@ + spec_pes(":"@) + "land+r"@ + spec_pes(":"@) + "c+usd<"@ + spec_pes("="@) + price
}

/// Non-land cards at uncommon rarity under the given price.
pub open spec fn spec_unc(price: Seq<char>) -> Seq<char> {
    "-t"@ + spec_pes(":"@) + "land+r"@ + spec_pes(":"@) + "u+usd<"@ + spec_pes("="@) + price
}

/// Land cards below rare rarity under the given price.
pub open spec fn spec_land(price: Seq<char>) -> Seq<char> {
    "t"@ + spec_pes(":"@) + "land+r<r+usd<"@ + spec_pes("="@) + price
}

/// Cards above uncommon rarity under the given price.
pub open spec fn spec_rare(price: Seq<char>) -> Seq<char> {
    "r>u+usd<"@ + spec_pes("="@) + price
}

/// The parenthesized OR-group of the three non-rare sub-clauses.
pub open spec fn spec_group(cmn: Seq<char>, unc: Seq<char>, land: Seq<char>) -> Seq<char> {
    spec_pes("("@) + spec_pes("("@) + spec_cmn(cmn) + spec_pes(")"@) + "+or+"@ + spec_pes("("@)
        + spec_unc(unc) + spec_pes(")"@) + "+or+"@ + spec_pes("("@) + spec_land(land) + spec_pes(
        ")"@,
    ) + spec_pes(")"@)
}

/// Everything of the common/uncommon/land query that follows the base
/// clause.
pub open spec fn spec_common_tail(cmn: Seq<char>, unc: Seq<char>, land: Seq<char>) -> Seq<char> {
    "+"@ + spec_group(cmn, unc, land) + "+"@ + spec_end_query()
}

/// Everything of the rare query that follows the base clause.
pub open spec fn spec_rare_tail(price: Seq<char>) -> Seq<char> {
    "+"@ + spec_rare(price) + "+"@ + spec_end_query()
}

/// The full common/uncommon/land query.
pub open spec fn spec_common_query(
    silver: bool,
    cmn: Seq<char>,
    unc: Seq<char>,
    land: Seq<char>,
) -> Seq<char> {
    spec_start_query(silver) + spec_common_tail(cmn, unc, land)
}

/// The full rare query.
pub open spec fn spec_rare_query(silver: bool, price: Seq<char>) -> Seq<char> {
    spec_start_query(silver) + spec_rare_tail(price)
}

/// Holds no raw reserved character of the query grammar.
pub open spec fn encoded_clean(s: Seq<char>) -> bool {
    forall|i: int|
        0 <= i < s.len() ==> s[i] != '(' && s[i] != ')' && s[i] != ':' && s[i] != '='
}

/// The part of the common/uncommon/land query between the `q=` frame
/// and the format suffix.
pub open spec fn spec_common_mid(
    silver: bool,
    cmn: Seq<char>,
    unc: Seq<char>,
    land: Seq<char>,
) -> Seq<char> {
    spec_start_body(silver) + "+"@ + spec_group(cmn, unc, land) + "+"@
}

/// The part of the rare query between the `q=` frame and the format
/// suffix.
pub open spec fn spec_rare_mid(silver: bool, price: Seq<char>) -> Seq<char> {
    spec_start_body(silver) + "+"@ + spec_rare(price) + "+"@
}

broadcast proof fn lemma_clean_concat(a: Seq<char>, b: Seq<char>)
    ensures
        encoded_clean(a) && encoded_clean(b) ==> #[trigger] encoded_clean(a + b),
{
    if encoded_clean(a) && encoded_clean(b) {
        assert forall|i: int| 0 <= i < (a + b).len() implies (a + b)[i] != '(' && (a + b)[i] != ')'
            && (a + b)[i] != ':' && (a + b)[i] != '=' by {
            if i < a.len() {
                assert((a + b)[i] == a[i]);
            } else {
                assert((a + b)[i] == b[i - a.len()]);
            }
        }
    }
}

/// A price made of digits and at most one dot holds neither a
/// reserved character nor a clause separator.
pub proof fn lemma_decimal_clean(p: Seq<char>)
    requires
        is_decimal(p),
    ensures
        encoded_clean(p),
        forall|i: int| 0 <= i < p.len() ==> p[i] != '+',
{
    assert forall|i: int| 0 <= i < p.len() implies p[i] != '(' && p[i] != ')' && p[i] != ':'
        && p[i] != '=' && p[i] != '+' by {
        assert(is_digit_char(p[i]) || p[i] == '.');
    }
}

proof fn reveal_query_pieces()
    ensures
        spec_pes("("@) == "%28"@,
        spec_pes(")"@) == "%29"@,
        spec_pes(":"@) == "%3A"@,
        spec_pes("="@) == "%3D"@,
{
    reveal_strlit("(");
    reveal_strlit(")");
    reveal_strlit("+");
    reveal_strlit(":");
    reveal_strlit("=");
    assert("("@[0] == '(' && ")"@[0] == ')' && "+"@[0] == '+' && ":"@[0] == ':' && "="@[0] == '=');
}

/// Every reserved character inside the emitted queries is
/// percent-encoded: between the fixed `q=` frame and the fixed
/// plain-text suffix, neither query holds a raw '(', ')', ':' or '=',
/// and the prices contribute no '+' (digits and a dot only), so every
/// '+' is a clause separator written by the builder itself.
pub proof fn lemma_query_encoding(
    silver: bool,
    cmn: Seq<char>,
    unc: Seq<char>,
    land: Seq<char>,
    price: Seq<char>,
)
    requires
        is_decimal(cmn),
        is_decimal(unc),
        is_decimal(land),
        is_decimal(price),
    ensures
        spec_common_query(silver, cmn, unc, land) == "q="@ + spec_common_mid(silver, cmn, unc, land)
            + spec_end_query(),
        spec_rare_query(silver, price) == "q="@ + spec_rare_mid(silver, price) + spec_end_query(),
        encoded_clean(spec_common_mid(silver, cmn, unc, land)),
        encoded_clean(spec_rare_mid(silver, price)),
{
    broadcast use lemma_clean_concat;

    reveal_query_pieces();
    reveal_strlit("%28");
    reveal_strlit("%29");
    reveal_strlit("%3A");
    reveal_strlit("%3D");
    reveal_strlit("-t");
    reveal_strlit("conspiracy+-t");
    reveal_strlit("contraption");
    reveal_strlit("-border");
    reveal_strlit("silver");
    reveal_strlit("land+r");
    reveal_strlit("c+usd<");
    reveal_strlit("u+usd<");
    reveal_strlit("t");
    reveal_strlit("land+r<r+usd<");
    reveal_strlit("r>u+usd<");
    reveal_strlit("+or+");
    reveal_strlit("+");
    lemma_decimal_clean(cmn);
    lemma_decimal_clean(unc);
    lemma_decimal_clean(land);
    lemma_decimal_clean(price);
    assert(encoded_clean(spec_start_body(silver)));
    assert(encoded_clean(spec_cmn(cmn)));
    assert(encoded_clean(spec_unc(unc)));
    assert(encoded_clean(spec_land(land)));
    assert(encoded_clean(spec_rare(price)));
    assert(encoded_clean(spec_group(cmn, unc, land)));
    assert(encoded_clean(spec_common_mid(silver, cmn, unc, land)));
    assert(encoded_clean(spec_rare_mid(silver, price)));
    assert(spec_common_query(silver, cmn, unc, land) =~= "q="@ + spec_common_mid(
        silver,
        cmn,
        unc,
        land,
    ) + spec_end_query());
    assert(spec_rare_query(silver, price) =~= "q="@ + spec_rare_mid(silver, price)
        + spec_end_query());
}

/// Toggling the silver-border flag from excluded to included removes
/// exactly the border-exclusion clause from both queries and changes
/// nothing else.
pub proof fn lemma_border_toggle(cmn: Seq<char>, unc: Seq<char>, land: Seq<char>, price: Seq<char>)
    ensures
        spec_common_query(false, cmn, unc, land) == spec_start_query(true) + "+-border%3Asilver"@
            + spec_common_tail(cmn, unc, land),
        spec_common_query(true, cmn, unc, land) == spec_start_query(true) + spec_common_tail(
            cmn,
            unc,
            land,
        ),
        spec_rare_query(false, price) == spec_start_query(true) + "+-border%3Asilver"@
            + spec_rare_tail(price),
        spec_rare_query(true, price) == spec_start_query(true) + spec_rare_tail(price),
{
    reveal_query_pieces();
    reveal_strlit("-border");
    reveal_strlit("silver");
    reveal_strlit("%3A");
    reveal_strlit("+");
    reveal_strlit("+-border%3Asilver");
    assert(spec_start_query(false) =~= spec_start_query(true) + "+-border%3Asilver"@);
    assert(spec_common_query(false, cmn, unc, land) =~= spec_start_query(true)
        + "+-border%3Asilver"@ + spec_common_tail(cmn, unc, land));
    assert(spec_rare_query(false, price) =~= spec_start_query(true) + "+-border%3Asilver"@
        + spec_rare_tail(price));
}

/// The query builder is a pure function of the configuration: equal
/// configurations yield byte-identical query strings.
pub proof fn lemma_queries_deterministic(a: Config, b: Config)
    requires
        a.include_sb == b.include_sb,
        a.cmn_price@ == b.cmn_price@,
        a.unc_price@ == b.unc_price@,
        a.rare_price@ == b.rare_price@,
        a.land_price@ == b.land_price@,
    ensures
        spec_rare_query(a.include_sb, a.rare_price@) == spec_rare_query(
            b.include_sb,
            b.rare_price@,
        ),
        spec_common_query(a.include_sb, a.cmn_price@, a.unc_price@, a.land_price@)
            == spec_common_query(b.include_sb, b.cmn_price@, b.unc_price@, b.land_price@),
{
}

/// Percent-encodes the reserved query-grammar symbols.
pub fn pes(symbol: &str) -> (r: &str)
    ensures
        r@ == spec_pes(symbol@),
{
    if str_eq(symbol, "(") {
        "%28"
    } else if str_eq(symbol, ")") {
        "%29"
    } else if str_eq(symbol, "+") {
        "%2B"
    } else if str_eq(symbol, ":") {
        "%3A"
    } else if str_eq(symbol, "=") {
        "%3D"
    } else {
        proof {
            reveal_strlit("");
            assert(""@ =~= Seq::<char>::empty());
        }
        ""
    }
}

/// The border-exclusion clause, or the empty string when
/// silver-bordered cards are included.
pub fn sb(silver: bool) -> (r: String)
    ensures
        r@ == spec_sb(silver),
{
    if silver {
        String::new()
    } else {
        String::from_str("-border").concat(pes(":")).concat("silver")
    }
}

/// Opens a query: the `q=` frame, the two fixed type exclusions, and
/// the border exclusion when silver-bordered cards are left out.
pub fn start_query(include_sb: bool) -> (r: String)
    ensures
        r@ == spec_start_query(include_sb),
{
    let base = String::from_str("q=").concat("-t").concat(pes(":")).concat(
        "conspiracy+-t",
    ).concat(pes(":")).concat("contraption");
    let r = if include_sb {
        base
    } else {
        let border = sb(false);
        base.concat("+").concat(border.as_str())
    };
    proof {
        assert(r@ =~= spec_start_query(include_sb));
    }
    r
}

/// Closes a query: the fixed plain-text-format suffix.
pub fn end_query() -> (r: String)
    ensures
        r@ == spec_end_query(),
{
    String::from_str("&format=text")
}

/// The common-rarity sub-clause.
fn cmn(price: &str) -> (r: String)
    ensures
        r@ == spec_cmn(price@),
{
    let r = String::from_str("-t").concat(pes(":")).concat("land+r").concat(pes(":")).concat(
        "c+usd<",
    ).concat(pes("=")).concat(price);
    proof {
        assert(r@ =~= spec_cmn(price@));
    }
    r
}

/// The uncommon-rarity sub-clause.
fn unc(price: &str) -> (r: String)
    ensures
        r@ == spec_unc(price@),
{
    let r = String::from_str("-t").concat(pes(":")).concat("land+r").concat(pes(":")).concat(
        "u+usd<",
    ).concat(pes("=")).concat(price);
    proof {
        assert(r@ =~= spec_unc(price@));
    }
    r
}

/// The land sub-clause.
fn land(price: &str) -> (r: String)
    ensures
        r@ == spec_land(price@),
{
    let r = String::from_str("t").concat(pes(":")).concat("land+r<r+usd<").concat(
        pes("="),
    ).concat(price);
    proof {
        assert(r@ =~= spec_land(price@));
    }
    r
}

/// The above-uncommon clause of the rare query.
fn rare(price: &str) -> (r: String)
    ensures
        r@ == spec_rare(price@),
{
    let r = String::from_str("r>u+usd<").concat(pes("=")).concat(price);
    proof {
        assert(r@ =~= spec_rare(price@));
    }
    r
}

/// Builds the full common/uncommon/land query.
#[verifier::rlimit(50)]
fn common_query(include_sb: bool, cmn_price: &str, unc_price: &str, land_price: &str) -> (r:
    String)
    ensures
        r@ == spec_common_query(include_sb, cmn_price@, unc_price@, land_price@),
{
    let c = cmn(cmn_price);
    let u = unc(unc_price);
    let d = land(land_price);
    let e = end_query();
    let r = start_query(include_sb).concat("+").concat(pes("(")).concat(pes("(")).concat(
        c.as_str(),
    ).concat(pes(")")).concat("+or+").concat(pes("(")).concat(u.as_str()).concat(pes(")")).concat(
        "+or+",
    ).concat(pes("(")).concat(d.as_str()).concat(pes(")")).concat(pes(")")).concat("+").concat(
        e.as_str(),
    );
    proof {
        assert(r@ =~= spec_common_query(include_sb, cmn_price@, unc_price@, land_price@));
    }
    r
}

/// Builds the full rare query.
fn rare_query(include_sb: bool, price: &str) -> (r: String)
    ensures
        r@ == spec_rare_query(include_sb, price@),
{
    let b = start_query(include_sb);
    let q = rare(price);
    let e = end_query();
    let r = b.concat("+").concat(q.as_str()).concat("+").concat(e.as_str());
    proof {
        assert(r@ =~= spec_rare_query(include_sb, price@));
    }
    r
}

/// Emits the two query strings for a configuration. A pure function:
/// the results are pinned, character for character, by the spec
/// functions above.
pub fn generate_queries(config: &Config) -> (q: Query)
    ensures
        q.rare@ == spec_rare_query(config.include_sb, config.rare_price@),
        q.other@ == spec_common_query(
            config.include_sb,
            config.cmn_price@,
            config.unc_price@,
            config.land_price@,
        ),
{
    Query {
        rare: rare_query(config.include_sb, config.rare_price.as_str()),
        other: common_query(
            config.include_sb,
            config.cmn_price.as_str(),
            config.unc_price.as_str(),
            config.land_price.as_str(),
        ),
    }
}

} // verus!
