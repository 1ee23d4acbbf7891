//! Smart playlist rules and the fully parameterized SQL they compile to.
//!
//! A rule set matches `all` (AND) or `any` (OR) of its rules; each rule names
//! a whitelisted field, an operator and usually a value. Values never reach
//! the SQL text: each becomes a numbered parameter (`?1`, `?2`, ...).

use crate::text::{str_is, chars_eq_str, decimal, i64_to_string, join, join_strings, signed_decimal, u64_to_string};
use vstd::prelude::*;

verus! {

/// What a rule value reads as when a number is needed (the reading itself
/// is done where floating point is available).
pub enum NumberReading {
    /// A finite number without fraction, as an `i64` (saturating).
    Whole(i64),
    /// A number with a fraction, or not finite: it binds as REAL. Also
    /// carries its value truncated to `i64` and whether it lies in
    /// `0..=100000` (the allowed day counts).
    Fraction { truncated: i64, in_day_range: bool },
    /// Not a number; the error to report.
    Invalid(String),
}

/// A rule's value.
pub enum RuleValue {
    /// A JSON string, with what it reads as when trimmed and parsed as a
    /// number.
    Text { text: String, reading: NumberReading },
    /// A JSON number, with its JSON text and its numeric reading.
    Number { shown: String, reading: NumberReading },
    /// Any other JSON value (bool, array, object, null).
    Other,
}

pub struct SmartRule {
    pub field: String,
    pub op: String,
    pub value: Option<RuleValue>,
}

pub struct SmartSort {
    pub field: String,
    pub dir: String,
}

pub struct SmartRules {
    /// "all" (AND) or "any" (OR)
    pub match_mode: String,
    pub rules: Vec<SmartRule>,
    pub sort: Option<SmartSort>,
    pub limit: Option<i64>,
}

/// A bound SQL parameter.
#[derive(Debug)]
pub enum SqlParam {
    Text(String),
    Integer(i64),
    /// The numeric value of the rule at this index, bound as REAL.
    Real(usize),
}

/// Abstract SQL parameter.
pub enum ParamView {
    Text(Seq<char>),
    Integer(i64),
    Real(usize),
}

impl View for SqlParam {
    type V = ParamView;

    open spec fn view(&self) -> ParamView {
        match self {
            SqlParam::Text(s) => ParamView::Text(s@),
            SqlParam::Integer(n) => ParamView::Integer(*n),
            SqlParam::Real(k) => ParamView::Real(*k),
        }
    }
}

/// Kind of a field: decides which operators and values are valid.
pub enum FieldKind {
    Text,
    Number,
    Date,
}

/// The rule set used when none is given: "all".
pub fn default_match() -> (r: String)
    ensures
        r@ == "all"@,
{
    String::from_str("all")
}

/// Whitelist from rule field to SQL column and kind.
pub open spec fn spec_column_for(field: Seq<char>) -> Option<(Seq<char>, FieldKind)> {
    if field == "title"@ {
        Some(("t.title"@, FieldKind::Text))
    } else if field == "artist"@ {
        Some(("a.name"@, FieldKind::Text))
    } else if field == "album"@ {
        Some(("al.title"@, FieldKind::Text))
    } else if field == "genre"@ {
        Some(("t.genre"@, FieldKind::Text))
    } else if field == "format"@ {
        Some(("t.format"@, FieldKind::Text))
    } else if field == "year"@ {
        Some(("t.year"@, FieldKind::Number))
    } else if field == "duration_ms"@ {
        Some(("t.duration_ms"@, FieldKind::Number))
    } else if field == "play_count"@ {
        Some(("t.play_count"@, FieldKind::Number))
    } else if field == "last_played_at"@ {
        Some(("t.last_played_at"@, FieldKind::Date))
    } else if field == "created_at"@ || field == "added"@ || field == "date_added"@ {
        Some(("t.date_added"@, FieldKind::Date))
    } else {
        None
    }
}

/// The SQL column and kind of a rule field; `None` for fields outside the
/// whitelist. Only these fixed column names ever reach the SQL text.
pub fn column_for(field: &str) -> (r: Option<(&'static str, FieldKind)>)
    ensures
        match (r, spec_column_for(field@)) {
            (Some((c, k)), Some((sc, sk))) => c@ == sc && k == sk,
            (None, None) => true,
            _ => false,
        },
{
    if str_is(field, "title") {
        Some(("t.title", FieldKind::Text))
    } else if str_is(field, "artist") {
        Some(("a.name", FieldKind::Text))
    } else if str_is(field, "album") {
        Some(("al.title", FieldKind::Text))
    } else if str_is(field, "genre") {
        Some(("t.genre", FieldKind::Text))
    } else if str_is(field, "format") {
        Some(("t.format", FieldKind::Text))
    } else if str_is(field, "year") {
        Some(("t.year", FieldKind::Number))
    } else if str_is(field, "duration_ms") {
        Some(("t.duration_ms", FieldKind::Number))
    } else if str_is(field, "play_count") {
        Some(("t.play_count", FieldKind::Number))
    } else if str_is(field, "last_played_at") {
        Some(("t.last_played_at", FieldKind::Date))
    } else if str_is(field, "created_at") || str_is(field, "added") || str_is(field, "date_added") {
        Some(("t.date_added", FieldKind::Date))
    } else {
        None
    }
}

/// A rule value as text: a string as is, a number in its JSON form.
pub open spec fn spec_value_as_string(v: Option<RuleValue>) -> Result<Seq<char>, Seq<char>> {
    match v {
        Some(RuleValue::Text { text, .. }) => Ok(text@),
        Some(RuleValue::Number { shown, .. }) => Ok(shown@),
        _ => Err("Rule value must be a string or number"@),
    }
}

/// A rule value's numeric reading, or the error it gives.
pub open spec fn spec_value_as_number(v: Option<RuleValue>) -> Result<NumberReading, Seq<char>> {
    match v {
        Some(RuleValue::Text { reading, .. }) => match reading {
            NumberReading::Invalid(m) => Err(m@),
            r => Ok(r),
        },
        Some(RuleValue::Number { reading, .. }) => match reading {
            NumberReading::Invalid(m) => Err(m@),
            r => Ok(r),
        },
        _ => Err("Rule value must be a number"@),
    }
}

/// The parameter a comparison binds: numbers as INTEGER (whole) or REAL,
/// text and dates as TEXT. `k` is the rule's index.
pub open spec fn spec_bind_value(kind: FieldKind, v: Option<RuleValue>, k: usize) -> Result<ParamView, Seq<char>> {
    match kind {
        FieldKind::Number => match spec_value_as_number(v) {
            Ok(NumberReading::Whole(w)) => Ok(ParamView::Integer(w)),
            Ok(_) => Ok(ParamView::Real(k)),
            Err(e) => Err(e),
        },
        _ => match spec_value_as_string(v) {
            Ok(s) => Ok(ParamView::Text(s)),
            Err(e) => Err(e),
        },
    }
}

pub open spec fn days_range_error() -> Seq<char> {
    "Days value must be between 0 and 100000"@
}

/// The day count of an `in_last_days` rule: its value truncated to a whole
/// number, which must lie in `0..=100000`.
pub open spec fn spec_day_count(v: Option<RuleValue>) -> Result<i64, Seq<char>> {
    match spec_value_as_number(v) {
        Ok(NumberReading::Whole(w)) => if 0 <= w <= 100000 {
            Ok(w)
        } else {
            Err(days_range_error())
        },
        Ok(NumberReading::Fraction { truncated, in_day_range }) => if in_day_range {
            Ok(truncated)
        } else {
            Err(days_range_error())
        },
        Ok(NumberReading::Invalid(m)) => Err(m@),
        Err(e) => Err(e),
    }
}

/// `?n`
pub open spec fn placeholder(n: nat) -> Seq<char> {
    seq!['?'] + decimal(n)
}

/// The SQL of one rule (the `k`-th) when `n` parameters are bound before
/// it, and the parameter it binds, if any.
pub open spec fn spec_rule_clause(rule: SmartRule, k: usize, n: nat) -> Result<(Seq<char>, Option<ParamView>), Seq<char>> {
    let field = rule.field@;
    let op = rule.op@;
    match spec_column_for(field) {
        None => Err("Unknown rule field: "@ + field),
        Some((col, kind)) => {
            let ph = placeholder(n + 1);
            if op == "contains"@ {
                if !(kind is Text) {
                    Err("Op 'contains' requires a text field, got: "@ + field)
                } else {
                    match spec_value_as_string(rule.value) {
                        Ok(s) => Ok((col + " LIKE '%' || "@ + ph + " || '%'"@, Some(ParamView::Text(s)))),
                        Err(e) => Err(e),
                    }
                }
            } else if op == "equals"@ || op == "not_equals"@ || op == "gt"@ || op == "lt"@ {
                match spec_bind_value(kind, rule.value, k) {
                    Ok(p) => {
                        let sql = if op == "equals"@ {
                            col + " = "@ + ph
                        } else if op == "not_equals"@ {
                            "("@ + col + " IS NULL OR "@ + col + " <> "@ + ph + ")"@
                        } else if op == "gt"@ {
                            col + " > "@ + ph
                        } else {
                            col + " < "@ + ph
                        };
                        Ok((sql, Some(p)))
                    },
                    Err(e) => Err(e),
                }
            } else if op == "in_last_days"@ || op == "not_in_last_days"@ {
                if !(kind is Date) {
                    Err("Op '"@ + op + "' requires a date field, got: "@ + field)
                } else {
                    match spec_day_count(rule.value) {
                        Ok(days) => {
                            let p = ParamView::Text(seq!['-'] + signed_decimal(days as int) + " days"@);
                            let sql = if op == "in_last_days"@ {
                                col + " >= datetime('now', "@ + ph + ")"@
                            } else {
                                "("@ + col + " IS NULL OR "@ + col + " < datetime('now', "@ + ph + "))"@
                            };
                            Ok((sql, Some(p)))
                        },
                        Err(e) => Err(e),
                    }
                }
            } else if op == "is_null"@ {
                Ok(("("@ + col + " IS NULL OR "@ + col + " = '')"@, None))
            } else {
                Err("Unknown rule op: "@ + op)
            }
        },
    }
}

/// The clauses and parameters of the rules, in order, or the first error.
pub open spec fn spec_build_rules(rules: Seq<SmartRule>) -> Result<(Seq<Seq<char>>, Seq<ParamView>), Seq<char>>
    decreases rules.len(),
{
    if rules.len() == 0 {
        Ok((Seq::empty(), Seq::empty()))
    } else {
        match spec_build_rules(rules.drop_last()) {
            Err(e) => Err(e),
            Ok((clauses, params)) => match spec_rule_clause(
                rules.last(),
                (rules.len() - 1) as usize,
                params.len(),
            ) {
                Err(e) => Err(e),
                Ok((sql, p)) => Ok(
                    (
                        clauses.push(sql),
                        match p {
                            Some(p) => params.push(p),
                            None => params,
                        },
                    ),
                ),
            },
        }
    }
}

/// The WHERE clause (without the keyword) and its parameters: the rules'
/// clauses joined with AND ("all") or OR ("any"), or `1=1` when there are
/// no rules; an error for an unknown match mode or the first bad rule.
pub open spec fn spec_build_where(rules: SmartRules) -> Result<(Seq<char>, Seq<ParamView>), Seq<char>> {
    let mode = rules.match_mode@;
    if mode != "all"@ && mode != "any"@ {
        Err("Unknown match mode: "@ + mode)
    } else {
        let joiner = if mode == "all"@ {
            " AND "@
        } else {
            " OR "@
        };
        match spec_build_rules(rules.rules@) {
            Err(e) => Err(e),
            Ok((clauses, params)) => Ok(
                (
                    if clauses.len() == 0 {
                        "1=1"@
                    } else {
                        join(clauses, joiner)
                    },
                    params,
                ),
            ),
        }
    }
}

fn cat2(a: &str, b: &str) -> (r: String)
    ensures
        r@ == a@ + b@,
{
    let mut r = String::from_str(a);
    r.append(b);
    r
}

fn value_as_string(v: &Option<RuleValue>) -> (r: Result<String, String>)
    ensures
        match (r, spec_value_as_string(*v)) {
            (Ok(a), Ok(b)) => a@ == b,
            (Err(a), Err(b)) => a@ == b,
            _ => false,
        },
{
    match v {
        Some(RuleValue::Text { text, .. }) => Ok(text.clone()),
        Some(RuleValue::Number { shown, .. }) => Ok(shown.clone()),
        _ => Err(String::from_str("Rule value must be a string or number")),
    }
}

/// Which reading: 0 whole, 1 fraction.
fn value_as_number(v: &Option<RuleValue>) -> (r: Result<&NumberReading, String>)
    ensures
        match (r, spec_value_as_number(*v)) {
            (Ok(a), Ok(b)) => *a == b,
            (Err(a), Err(b)) => a@ == b,
            _ => false,
        },
{
    match v {
        Some(RuleValue::Text { reading, .. }) => match reading {
            NumberReading::Invalid(m) => Err(m.clone()),
            r => Ok(r),
        },
        Some(RuleValue::Number { reading, .. }) => match reading {
            NumberReading::Invalid(m) => Err(m.clone()),
            r => Ok(r),
        },
        _ => Err(String::from_str("Rule value must be a number")),
    }
}

fn bind_value(kind: &FieldKind, v: &Option<RuleValue>, k: usize) -> (r: Result<SqlParam, String>)
    ensures
        match (r, spec_bind_value(*kind, *v, k)) {
            (Ok(a), Ok(b)) => a@ == b,
            (Err(a), Err(b)) => a@ == b,
            _ => false,
        },
{
    match kind {
        FieldKind::Number => match value_as_number(v) {
            Ok(NumberReading::Whole(w)) => Ok(SqlParam::Integer(*w)),
            Ok(_) => Ok(SqlParam::Real(k)),
            Err(e) => Err(e),
        },
        _ => match value_as_string(v) {
            Ok(s) => Ok(SqlParam::Text(s)),
            Err(e) => Err(e),
        },
    }
}

fn day_count(v: &Option<RuleValue>) -> (r: Result<i64, String>)
    ensures
        match (r, spec_day_count(*v)) {
            (Ok(a), Ok(b)) => a == b,
            (Err(a), Err(b)) => a@ == b,
            _ => false,
        },
{
    match value_as_number(v) {
        Ok(NumberReading::Whole(w)) => {
            if 0 <= *w && *w <= 100000 {
                Ok(*w)
            } else {
                Err(String::from_str("Days value must be between 0 and 100000"))
            }
        },
        Ok(NumberReading::Fraction { truncated, in_day_range }) => {
            if *in_day_range {
                Ok(*truncated)
            } else {
                Err(String::from_str("Days value must be between 0 and 100000"))
            }
        },
        Ok(NumberReading::Invalid(m)) => Err(m.clone()),
        Err(e) => Err(e),
    }
}

fn rule_clause(rule: &SmartRule, k: usize, n: usize) -> (r: Result<(String, Option<SqlParam>), String>)
    requires
        n < usize::MAX,
    ensures
        match (r, spec_rule_clause(*rule, k, n as nat)) {
            (Ok((sql, p)), Ok((ssql, sp))) => sql@ == ssql && match (p, sp) {
                (Some(a), Some(b)) => a@ == b,
                (None, None) => true,
                _ => false,
            },
            (Err(a), Err(b)) => a@ == b,
            _ => false,
        },
{
    let field = rule.field.as_str();
    let op = rule.op.as_str();
    let (col, kind) = match column_for(field) {
        Some(ck) => ck,
        None => {
            return Err(cat2("Unknown rule field: ", field));
        },
    };
    let num = u64_to_string((n + 1) as u64);
    let ph = cat2("?", num.as_str());
    proof {
        reveal_strlit("?");
        assert(ph@ =~= placeholder((n + 1) as nat));
    }
    if str_is(op, "contains") {
        if !matches!(kind, FieldKind::Text) {
            return Err(cat2("Op 'contains' requires a text field, got: ", field));
        }
        match value_as_string(&rule.value) {
            Ok(s) => {
                let mut sql = cat2(col, " LIKE '%' || ");
                sql.append(ph.as_str());
                sql.append(" || '%'");
                Ok((sql, Some(SqlParam::Text(s))))
            },
            Err(e) => Err(e),
        }
    } else if str_is(op, "equals") || str_is(op, "not_equals") || str_is(op, "gt") || str_is(
        op,
        "lt",
    ) {
        match bind_value(&kind, &rule.value, k) {
            Ok(p) => {
                let sql = if str_is(op, "equals") {
                    let mut s = cat2(col, " = ");
                    s.append(ph.as_str());
                    s
                } else if str_is(op, "not_equals") {
                    let mut s = cat2("(", col);
                    s.append(" IS NULL OR ");
                    s.append(col);
                    s.append(" <> ");
                    s.append(ph.as_str());
                    s.append(")");
                    s
                } else if str_is(op, "gt") {
                    let mut s = cat2(col, " > ");
                    s.append(ph.as_str());
                    s
                } else {
                    let mut s = cat2(col, " < ");
                    s.append(ph.as_str());
                    s
                };
                Ok((sql, Some(p)))
            },
            Err(e) => Err(e),
        }
    } else if str_is(op, "in_last_days") || str_is(op, "not_in_last_days") {
        if !matches!(kind, FieldKind::Date) {
            let mut e = cat2("Op '", op);
            e.append("' requires a date field, got: ");
            e.append(field);
            return Err(e);
        }
        match day_count(&rule.value) {
            Ok(days) => {
                let d = i64_to_string(days);
                let mut t = cat2("-", d.as_str());
                t.append(" days");
                proof {
                    reveal_strlit("-");
                    assert(t@ =~= seq!['-'] + signed_decimal(days as int) + " days"@);
                }
                let sql = if str_is(op, "in_last_days") {
                    let mut s = cat2(col, " >= datetime('now', ");
                    s.append(ph.as_str());
                    s.append(")");
                    s
                } else {
                    let mut s = cat2("(", col);
                    s.append(" IS NULL OR ");
                    s.append(col);
                    s.append(" < datetime('now', ");
                    s.append(ph.as_str());
                    s.append("))");
                    s
                };
                Ok((sql, Some(SqlParam::Text(t))))
            },
            Err(e) => Err(e),
        }
    } else if str_is(op, "is_null") {
        let mut s = cat2("(", col);
        s.append(" IS NULL OR ");
        s.append(col);
        s.append(" = '')");
        Ok((s, None))
    } else {
        Err(cat2("Unknown rule op: ", op))
    }
}

/// Each comparison op compiles to its own SQL over the rule field's column
/// and the rule's own placeholder (`?n` after the `n - 1` parameters bound
/// before it): `equals` to `=`, `not_equals` to `<>` (or a missing value),
/// `gt` to `>`, `lt` to `<`, `contains` to a LIKE around the value, the day
/// ops to a comparison with a date that many days back, `is_null` to a
/// test for a missing or empty value. Each op but `is_null` binds exactly
/// one parameter.
pub proof fn law_ops_compile_to_their_comparison(rule: SmartRule, k: usize, n: nat, col: Seq<char>, kind: FieldKind)
    requires
        spec_column_for(rule.field@) == Some((col, kind)),
        spec_rule_clause(rule, k, n) is Ok,
    ensures
        ({
            let (sql, p) = spec_rule_clause(rule, k, n)->Ok_0;
            let ph = seq!['?'] + decimal(n + 1);
            &&& rule.op@ == "equals"@ ==> sql == col + " = "@ + ph && p is Some
            &&& rule.op@ == "not_equals"@ ==> sql == "("@ + col + " IS NULL OR "@ + col + " <> "@ + ph
                + ")"@ && p is Some
            &&& rule.op@ == "gt"@ ==> sql == col + " > "@ + ph && p is Some
            &&& rule.op@ == "lt"@ ==> sql == col + " < "@ + ph && p is Some
            &&& rule.op@ == "contains"@ ==> sql == col + " LIKE '%' || "@ + ph + " || '%'"@
                && p is Some
            &&& rule.op@ == "in_last_days"@ ==> sql == col + " >= datetime('now', "@ + ph + ")"@
                && p is Some
            &&& rule.op@ == "not_in_last_days"@ ==> sql == "("@ + col + " IS NULL OR "@ + col
                + " < datetime('now', "@ + ph + "))"@ && p is Some
            &&& rule.op@ == "is_null"@ ==> sql == "("@ + col + " IS NULL OR "@ + col + " = '')"@
                && p is None
        }),
{
    reveal_strlit("is_null");
    reveal_strlit("contains");
    reveal_strlit("equals");
    reveal_strlit("not_equals");
    reveal_strlit("gt");
    reveal_strlit("lt");
    reveal_strlit("in_last_days");
    reveal_strlit("not_in_last_days");
    assert("contains"@.len() == 8);
    assert("equals"@.len() == 6);
    assert("not_equals"@.len() == 10);
    assert("gt"@.len() == 2 && "gt"@[0] == 'g');
    assert("lt"@.len() == 2 && "lt"@[0] == 'l');
    assert("in_last_days"@.len() == 12);
    assert("not_in_last_days"@.len() == 16);
    assert("is_null"@.len() == 7);
    let op = rule.op@;
    if op == "lt"@ {
        assert(op != "gt"@) by {
            assert(op[0] != "gt"@[0]);
        }
    }
}

/// A single `equals` rule on a known field selects the tracks whose column
/// equals the rule's value: the WHERE clause is that column `= ?1`, and the
/// one parameter is the value's binding.
pub proof fn law_single_equals_rule(rules: SmartRules, col: Seq<char>, kind: FieldKind)
    requires
        rules.rules@.len() == 1,
        rules.rules@[0].op@ == "equals"@,
        spec_column_for(rules.rules@[0].field@) == Some((col, kind)),
        spec_build_where(rules) is Ok,
    ensures
        spec_build_where(rules)->Ok_0.0 == col + " = ?1"@,
        spec_build_where(rules)->Ok_0.1.len() == 1,
{
    reveal_strlit(" = ?1");
    reveal_strlit(" = ");
    let rs = rules.rules@;
    let e = Seq::<SmartRule>::empty();
    assert(rs.drop_last() =~= e);
    assert(rs.last() == rs[0]);
    assert(spec_build_rules(e) == Ok::<(Seq<Seq<char>>, Seq<ParamView>), Seq<char>>((Seq::empty(), Seq::empty())));
    law_ops_compile_to_their_comparison(rs[0], 0, 0, col, kind);
    let (sql, p) = spec_rule_clause(rs[0], 0, 0)->Ok_0;
    assert(decimal(1) == seq!['1']);
    assert(sql =~= col + " = ?1"@);
    let (cl, ps) = spec_build_rules(rs)->Ok_0;
    assert(cl =~= seq![sql]);
    assert(ps.len() == 1);
    assert(join(cl, " AND "@) == sql);
    assert(join(cl, " OR "@) == sql);
}

/// How many of the rules carry a value (every op but `is_null`).
pub open spec fn value_rule_count(rules: Seq<SmartRule>) -> nat
    decreases rules.len(),
{
    if rules.len() == 0 {
        0
    } else {
        value_rule_count(rules.drop_last()) + if rules.last().op@ == "is_null"@ {
            0nat
        } else {
            1nat
        }
    }
}

/// A rule that builds binds a parameter exactly when its op is not
/// `is_null`.
proof fn lemma_rule_binds(rule: SmartRule, k: usize, n: nat)
    requires
        spec_rule_clause(rule, k, n) is Ok,
    ensures
        (spec_rule_clause(rule, k, n)->Ok_0.1 is Some) == (rule.op@ != "is_null"@),
{
    reveal_strlit("is_null");
    reveal_strlit("contains");
    reveal_strlit("equals");
    reveal_strlit("not_equals");
    reveal_strlit("gt");
    reveal_strlit("lt");
    reveal_strlit("in_last_days");
    reveal_strlit("not_in_last_days");
    let nul = "is_null"@;
    assert("contains"@.len() != nul.len());
    assert("equals"@.len() != nul.len());
    assert("not_equals"@.len() != nul.len());
    assert("gt"@.len() != nul.len());
    assert("lt"@.len() != nul.len());
    assert("in_last_days"@.len() != nul.len());
    assert("not_in_last_days"@.len() != nul.len());
}

proof fn lemma_build_rules_numbering(rules: Seq<SmartRule>)
    requires
        spec_build_rules(rules) is Ok,
    ensures
        spec_build_rules(rules)->Ok_0.0.len() == rules.len(),
        spec_build_rules(rules)->Ok_0.1.len() == value_rule_count(rules),
        forall|i: int| 0 <= i < rules.len() ==> {
            let c = #[trigger] spec_rule_clause(rules[i], i as usize, value_rule_count(rules.take(i)));
            &&& c is Ok
            &&& spec_build_rules(rules)->Ok_0.0[i] == c->Ok_0.0
            &&& (c->Ok_0.1 matches Some(p) ==> spec_build_rules(rules)->Ok_0.1[value_rule_count(rules.take(i)) as int] == p)
        },
    decreases rules.len(),
{
    if rules.len() > 0 {
        let prev = rules.drop_last();
        let last = rules.last();
        let j = rules.len() - 1;
        lemma_build_rules_numbering(prev);
        let (pc, pp) = spec_build_rules(prev)->Ok_0;
        let c = spec_rule_clause(last, j as usize, pp.len());
        lemma_rule_binds(last, j as usize, pp.len());
        assert(rules.take(j) =~= prev);
        assert forall|i: int| 0 <= i < rules.len() implies {
            let c = #[trigger] spec_rule_clause(rules[i], i as usize, value_rule_count(rules.take(i)));
            &&& c is Ok
            &&& spec_build_rules(rules)->Ok_0.0[i] == c->Ok_0.0
            &&& (c->Ok_0.1 matches Some(p) ==> spec_build_rules(rules)->Ok_0.1[value_rule_count(rules.take(i)) as int] == p)
        } by {
            if i < j {
                assert(rules[i] == prev[i]);
                assert(rules.take(i) =~= prev.take(i));
                let ci = spec_rule_clause(prev[i], i as usize, value_rule_count(prev.take(i)));
                if ci->Ok_0.1 is Some {
                    lemma_rule_binds(prev[i], i as usize, value_rule_count(prev.take(i)));
                    lemma_value_count_prefix(prev, i);
                }
            }
        }
    }
}

proof fn lemma_value_count_prefix(rules: Seq<SmartRule>, i: int)
    requires
        0 <= i < rules.len(),
        rules[i].op@ != "is_null"@,
    ensures
        value_rule_count(rules.take(i)) < value_rule_count(rules),
    decreases rules.len(),
{
    if i < rules.len() - 1 {
        assert(rules.drop_last().take(i) =~= rules.take(i));
        assert(rules.drop_last()[i] == rules[i]);
        lemma_value_count_prefix(rules.drop_last(), i);
    } else {
        assert(rules.take(i) =~= rules.drop_last());
    }
}

/// How a rule set that builds is numbered: one parameter per rule that
/// carries a value (all but `is_null`), none for the others; the `i`-th
/// rule's clause is built after the parameters of the rules before it, so
/// it uses placeholder `?n` with `n` one more than their number, and binds
/// parameter `n`. With no rules the clause is `1=1`.
pub proof fn law_where_placeholders_follow_rules(rules: SmartRules)
    requires
        spec_build_where(rules) is Ok,
    ensures
        spec_build_where(rules)->Ok_0.1.len() == value_rule_count(rules.rules@),
        rules.rules@.len() == 0 ==> spec_build_where(rules)->Ok_0.0 == "1=1"@,
        forall|i: int| 0 <= i < rules.rules@.len() ==> {
            let c = #[trigger] spec_rule_clause(
                rules.rules@[i],
                i as usize,
                value_rule_count(rules.rules@.take(i)),
            );
            &&& c is Ok
            &&& spec_build_rules(rules.rules@)->Ok_0.0[i] == c->Ok_0.0
            &&& (c->Ok_0.1 matches Some(p) ==> spec_build_where(rules)->Ok_0.1[value_rule_count(
                rules.rules@.take(i),
            ) as int] == p)
        },
{
    lemma_build_rules_numbering(rules.rules@);
}

/// Two rule lists that name the same fields and ops in the same order,
/// whatever their values.
pub open spec fn same_shape(a: Seq<SmartRule>, b: Seq<SmartRule>) -> bool {
    &&& a.len() == b.len()
    &&& forall|i: int| 0 <= i < a.len() ==> (#[trigger] a[i]).field@ == b[i].field@ && a[i].op@ == b[i].op@
}

proof fn lemma_shape_builds_alike(a: Seq<SmartRule>, b: Seq<SmartRule>)
    requires
        same_shape(a, b),
        spec_build_rules(a) is Ok,
        spec_build_rules(b) is Ok,
    ensures
        spec_build_rules(a)->Ok_0.0 == spec_build_rules(b)->Ok_0.0,
        spec_build_rules(a)->Ok_0.1.len() == spec_build_rules(b)->Ok_0.1.len(),
    decreases a.len(),
{
    if a.len() > 0 {
        let (pa, pb) = (a.drop_last(), b.drop_last());
        assert(same_shape(pa, pb)) by {
            assert forall|i: int| 0 <= i < pa.len() implies (#[trigger] pa[i]).field@ == pb[i].field@
                && pa[i].op@ == pb[i].op@ by {
                assert(a[i] == pa[i] && b[i] == pb[i]);
            }
        }
        lemma_shape_builds_alike(pa, pb);
        assert(a.last() == a[a.len() - 1] && b.last() == b[b.len() - 1]);
    }
}

/// Rule values never reach the SQL text: two rule sets with the same match
/// mode and the same fields and ops, in order, that both build give the
/// same WHERE clause and bind the same number of parameters; only the
/// parameters carry the values.
pub proof fn law_values_only_bound_as_parameters(a: SmartRules, b: SmartRules)
    requires
        a.match_mode@ == b.match_mode@,
        same_shape(a.rules@, b.rules@),
        spec_build_where(a) is Ok,
        spec_build_where(b) is Ok,
    ensures
        spec_build_where(a)->Ok_0.0 == spec_build_where(b)->Ok_0.0,
        spec_build_where(a)->Ok_0.1.len() == spec_build_where(b)->Ok_0.1.len(),
{
    lemma_shape_builds_alike(a.rules@, b.rules@);
}


/// Builds the parameterized WHERE clause (without the keyword) of a rule
/// set and its parameters, numbered `?1, ?2, ...` in order. An empty rule
/// list gives `1=1`.
pub fn build_where(rules: &SmartRules) -> (r: Result<(String, Vec<SqlParam>), String>)
    ensures
        match (r, spec_build_where(*rules)) {
            (Ok((w, ps)), Ok((sw, sps))) => w@ == sw && ps@.map_values(|p: SqlParam| p@) == sps,
            (Err(a), Err(b)) => a@ == b,
            _ => false,
        },
{
    let mode = rules.match_mode.as_str();
    let joiner = if str_is(mode, "all") {
        " AND "
    } else if str_is(mode, "any") {
        " OR "
    } else {
        return Err(cat2("Unknown match mode: ", mode));
    };
    let mut clauses: Vec<String> = Vec::new();
    let mut params: Vec<SqlParam> = Vec::new();
    let mut k: usize = 0;
    assert(rules.rules@.take(0) =~= Seq::<SmartRule>::empty());
    assert(clauses@.map_values(|s: String| s@) =~= Seq::<Seq<char>>::empty());
    assert(params@.map_values(|p: SqlParam| p@) =~= Seq::<ParamView>::empty());
    while k < rules.rules.len()
        invariant
            k <= rules.rules@.len(),
            params@.len() <= k,
            rules.match_mode@ == "all"@ || rules.match_mode@ == "any"@,
            joiner@ == (if rules.match_mode@ == "all"@ {
                " AND "@
            } else {
                " OR "@
            }),
            spec_build_rules(rules.rules@.take(k as int)) == Ok::<
                (Seq<Seq<char>>, Seq<ParamView>),
                Seq<char>,
            >((clauses@.map_values(|s: String| s@), params@.map_values(|p: SqlParam| p@))),
        decreases rules.rules@.len() - k,
    {
        let ghost before = rules.rules@.take(k as int);
        assert(rules.rules@.take(k + 1).drop_last() =~= before);
        assert(rules.rules@.take(k + 1).last() == rules.rules@[k as int]);
        assert(rules.rules@.take(k + 1).len() == k + 1);
        match rule_clause(&rules.rules[k], k, params.len()) {
            Ok((sql, p)) => {
                clauses.push(sql);
                match p {
                    Some(p) => {
                        params.push(p);
                    },
                    None => {},
                }
            },
            Err(e) => {
                proof {
                    assert(spec_build_rules(rules.rules@.take(k + 1)) == Err::<
                        (Seq<Seq<char>>, Seq<ParamView>),
                        Seq<char>,
                    >(e@));
                    lemma_build_rules_error_sticks(rules.rules@, (k + 1) as int);
                }
                return Err(e);
            },
        }
        k = k + 1;
        proof {
            let res = spec_build_rules(rules.rules@.take(k as int));
            assert(res is Ok);
            assert(clauses@.map_values(|s: String| s@) =~= res->Ok_0.0);
            assert(params@.map_values(|p: SqlParam| p@) =~= res->Ok_0.1);
        }
    }
    assert(rules.rules@.take(k as int) =~= rules.rules@);
    let where_sql = if clauses.len() == 0 {
        String::from_str("1=1")
    } else {
        join_strings(&clauses, joiner)
    };
    Ok((where_sql, params))
}

/// Once a prefix of the rules fails, the whole list fails with that error.
proof fn lemma_build_rules_error_sticks(rules: Seq<SmartRule>, i: int)
    requires
        0 <= i <= rules.len(),
        spec_build_rules(rules.take(i)) is Err,
    ensures
        spec_build_rules(rules) == spec_build_rules(rules.take(i)),
    decreases rules.len() - i,
{
    if i < rules.len() {
        assert(rules.take(i + 1).drop_last() =~= rules.take(i));
        lemma_build_rules_error_sticks(rules, i + 1);
    } else {
        assert(rules.take(i) =~= rules);
    }
}

/// Checks a rule set by building its WHERE clause; the error is the
/// builder's.
pub fn validate_rules(rules: &SmartRules) -> (r: Result<(), String>)
    ensures
        r is Ok <==> spec_build_where(*rules) is Ok,
        r matches Err(e) ==> spec_build_where(*rules) == Err::<(Seq<char>, Seq<ParamView>), Seq<char>>(e@),
{
    match build_where(rules) {
        Ok(_) => Ok(()),
        Err(e) => Err(e),
    }
}

/// The ORDER BY clause of a sort: whitelisted column and direction, by
/// date added (newest first) when there is no sort.
pub open spec fn spec_order_clause(sort: Option<SmartSort>) -> Result<Seq<char>, Seq<char>> {
    match sort {
        None => Ok("t.date_added DESC"@),
        Some(s) => match spec_column_for(s.field@) {
            None => Err("Unknown sort field: "@ + s.field@),
            Some((col, _)) => if s.dir@ == "asc"@ {
                Ok(col + " "@ + "ASC"@)
            } else if s.dir@ == "desc"@ {
                Ok(col + " "@ + "DESC"@)
            } else {
                Err("Unknown sort direction: "@ + s.dir@)
            },
        },
    }
}

/// Whitelisted ORDER BY clause of a rule set.
pub fn order_clause(sort: &Option<SmartSort>) -> (r: Result<String, String>)
    ensures
        match (r, spec_order_clause(*sort)) {
            (Ok(a), Ok(b)) => a@ == b,
            (Err(a), Err(b)) => a@ == b,
            _ => false,
        },
{
    let sort = match sort {
        Some(s) => s,
        None => {
            return Ok(String::from_str("t.date_added DESC"));
        },
    };
    let col = match column_for(sort.field.as_str()) {
        Some((c, _)) => c,
        None => {
            return Err(cat2("Unknown sort field: ", sort.field.as_str()));
        },
    };
    let dir = if str_is(sort.dir.as_str(), "asc") {
        "ASC"
    } else if str_is(sort.dir.as_str(), "desc") {
        "DESC"
    } else {
        return Err(cat2("Unknown sort direction: ", sort.dir.as_str()));
    };
    let mut r = cat2(col, " ");
    r.append(dir);
    Ok(r)
}

/// The number of tracks a rule set yields: the match count, capped by the
/// rule set's own limit when that is not negative.
pub fn capped_count(count: i64, limit: Option<i64>) -> (r: i64)
    ensures
        r == match limit {
            Some(l) => if l >= 0 && l < count {
                l
            } else {
                count
            },
            None => count,
        },
{
    match limit {
        Some(l) => if l >= 0 && l < count {
            l
        } else {
            count
        },
        None => count,
    }
}

/// The offset and row count of a page within `total` results: the offset
/// is at least 0 and the count is `page_limit` (at least 0) clamped to what
/// remains after the offset.
pub fn page_window(total: i64, offset: i64, page_limit: i64) -> (r: (i64, i64))
    requires
        total >= 0,
    ensures
        r.0 == (if offset > 0 { offset } else { 0 }),
        r.1 == ({
            let rest = total - r.0;
            let rest = if rest > 0 { rest } else { 0 };
            let want: int = if page_limit > 0 { page_limit as int } else { 0 };
            if want < rest { want } else { rest }
        }),
{
    let off = if offset > 0 {
        offset
    } else {
        0
    };
    let rest = total - off;
    let rest = if rest > 0 {
        rest
    } else {
        0
    };
    let want = if page_limit > 0 {
        page_limit
    } else {
        0
    };
    (off, if want < rest {
        want
    } else {
        rest
    })
}

} // verus!
