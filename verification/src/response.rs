//! Response rules: conditions over an incident's fields, the actions a rule
//! asks for, its cooldown, and the order in which rules are tried.

use vstd::prelude::*;
use vstd::utf8::encode_utf8;
use crate::incident::Incident;
use crate::incident::IncidentView;
use crate::incident::max_confidence;
use crate::incident::ResponseAction;
use crate::incident::ResponseActionView;
use crate::model::CONFIDENCE_MAX;
use crate::outside::lowercase_of;
use crate::outside::to_lowercase;
use crate::signature::elapsed;
use crate::text::contains;
use crate::text::contains_text;
use crate::text::digit_char;
use crate::text::digit_str;
use crate::text::ends_with;
use crate::text::ends_with_text;
use crate::text::lemma_bytes_lt_irreflexive;
use crate::text::lemma_bytes_lt_transitive;
use crate::text::parse_milli;
use crate::text::starts_with;
use crate::text::starts_with_text;
use crate::text::str_eq;
use crate::text::str_lt;
use crate::text::text_lt;
use crate::text::text_milli;

verus! {

/// A confidence in thousandths written as a decimal: `1` at the top, `0` at
/// the bottom, otherwise `0.` and up to three digits without trailing zeros.
pub open spec fn permille_text(p: u16) -> Seq<char> {
    if p >= CONFIDENCE_MAX {
        "1"@
    } else if p == 0 {
        "0"@
    } else {
        let d1 = (p / 100) as nat;
        let d2 = ((p / 10) % 10) as nat;
        let d3 = (p % 10) as nat;
        if d3 != 0 {
            "0."@ + seq![digit_char(d1), digit_char(d2), digit_char(d3)]
        } else if d2 != 0 {
            "0."@ + seq![digit_char(d1), digit_char(d2)]
        } else {
            "0."@ + seq![digit_char(d1)]
        }
    }
}

/// Writes a confidence in thousandths as a decimal.
pub fn permille_to_text(p: u16) -> (r: String)
    ensures
        r@ == permille_text(p),
{
    if p >= CONFIDENCE_MAX {
        return String::from_str("1");
    }
    if p == 0 {
        return String::from_str("0");
    }
    let d1 = (p / 100) as u64;
    let d2 = ((p / 10) % 10) as u64;
    let d3 = (p % 10) as u64;
    let mut s = String::from_str("0.");
    s.append(digit_str(d1));
    if d3 != 0 {
        s.append(digit_str(d2));
        s.append(digit_str(d3));
        proof {
            assert(s@ =~= permille_text(p));
        }
    } else if d2 != 0 {
        s.append(digit_str(d2));
        proof {
            assert(s@ =~= permille_text(p));
        }
    } else {
        proof {
            assert(s@ =~= permille_text(p));
        }
    }
    s
}

/// One condition of a rule: a field of the incident, an operator and the
/// value to compare with.
#[derive(Debug, PartialEq, Eq)]
pub struct ResponseCondition {
    pub field: String,
    pub operator: String,
    pub value: String,
    pub case_sensitive: bool,
}

/// What a `ResponseCondition` holds, as mathematical values.
pub struct ResponseConditionView {
    pub field: Seq<char>,
    pub operator: Seq<char>,
    pub value: Seq<char>,
    pub case_sensitive: bool,
}

impl DeepView for ResponseCondition {
    type V = ResponseConditionView;

    open spec fn deep_view(&self) -> ResponseConditionView {
        ResponseConditionView {
            field: self.field@,
            operator: self.operator@,
            value: self.value@,
            case_sensitive: self.case_sensitive,
        }
    }
}

impl View for ResponseCondition {
    type V = ResponseConditionView;

    open spec fn view(&self) -> ResponseConditionView {
        self.deep_view()
    }
}

impl Clone for ResponseCondition {
    fn clone(&self) -> (r: Self)
        ensures
            r@ == self@,
    {
        ResponseCondition {
            field: self.field.clone(),
            operator: self.operator.clone(),
            value: self.value.clone(),
            case_sensitive: self.case_sensitive,
        }
    }
}

/// The text of an incident's field as conditions see it; `None` for a name
/// that is no field.
pub open spec fn field_text(inc: IncidentView, field: Seq<char>) -> Option<Seq<char>> {
    if field == "severity"@ {
        Some(inc.severity.name_text())
    } else if field == "source_ip"@ {
        Some(inc.source_ip)
    } else if field == "user_id"@ {
        Some(inc.user_id)
    } else if field == "category"@ {
        Some(inc.category.name_text())
    } else if field == "confidence"@ {
        Some(permille_text(max_confidence(inc.findings)))
    } else {
        None
    }
}

/// A text as a comparison sees it: itself, or lower-cased where case is to
/// be ignored.
pub open spec fn folded(s: Seq<char>, case_sensitive: bool) -> Seq<char> {
    if case_sensitive {
        s
    } else {
        lowercase_of(s)
    }
}

/// Whether an operator holds between a field's text and a value. The
/// numeric operators hold only between two decimals; an unknown operator
/// never holds.
pub open spec fn operator_holds(operator: Seq<char>, field: Seq<char>, value: Seq<char>) -> bool {
    if operator == "equals"@ {
        field == value
    } else if operator == "contains"@ {
        contains_text(field, value)
    } else if operator == "starts_with"@ {
        starts_with_text(field, value)
    } else if operator == "ends_with"@ {
        ends_with_text(field, value)
    } else if operator == "greater_than"@ {
        text_milli(field) is Some && text_milli(value) is Some && text_milli(field)->Some_0
            > text_milli(value)->Some_0
    } else if operator == "less_than"@ {
        text_milli(field) is Some && text_milli(value) is Some && text_milli(field)->Some_0
            < text_milli(value)->Some_0
    } else {
        false
    }
}

/// Whether a condition holds of an incident. A condition on a name that is
/// no field is passed over: it holds.
pub open spec fn condition_holds(c: ResponseConditionView, inc: IncidentView) -> bool {
    match field_text(inc, c.field) {
        None => true,
        Some(raw) => operator_holds(
            c.operator,
            folded(raw, c.case_sensitive),
            folded(c.value, c.case_sensitive),
        ),
    }
}

/// Whether every condition of a list holds of an incident.
pub open spec fn conditions_hold(conditions: Seq<ResponseConditionView>, inc: IncidentView) -> bool {
    forall|i: int| 0 <= i < conditions.len() ==> condition_holds(#[trigger] conditions[i], inc)
}

/// The text of an incident's field.
pub fn incident_field(incident: &Incident, field: &str) -> (r: Option<String>)
    ensures
        r.deep_view() == field_text(incident@, field@),
{
    if str_eq(field, "severity") {
        Some(incident.severity.name())
    } else if str_eq(field, "source_ip") {
        Some(incident.source_ip.clone())
    } else if str_eq(field, "user_id") {
        Some(incident.user_id.clone())
    } else if str_eq(field, "category") {
        Some(incident.category.name())
    } else if str_eq(field, "confidence") {
        Some(permille_to_text(incident.confidence()))
    } else {
        None
    }
}

/// Whether an operator holds between a field's text and a value.
pub fn apply_operator(operator: &str, field: &str, value: &str) -> (r: bool)
    ensures
        r == operator_holds(operator@, field@, value@),
{
    if str_eq(operator, "equals") {
        str_eq(field, value)
    } else if str_eq(operator, "contains") {
        contains(field, value)
    } else if str_eq(operator, "starts_with") {
        starts_with(field, value)
    } else if str_eq(operator, "ends_with") {
        ends_with(field, value)
    } else if str_eq(operator, "greater_than") {
        match (parse_milli(field), parse_milli(value)) {
            (Some(a), Some(b)) => a > b,
            _ => false,
        }
    } else if str_eq(operator, "less_than") {
        match (parse_milli(field), parse_milli(value)) {
            (Some(a), Some(b)) => a < b,
            _ => false,
        }
    } else {
        false
    }
}

/// Whether a condition holds of an incident.
pub fn evaluate_condition(condition: &ResponseCondition, incident: &Incident) -> (r: bool)
    ensures
        r == condition_holds(condition@, incident@),
{
    match incident_field(incident, condition.field.as_str()) {
        None => true,
        Some(raw) => {
            if condition.case_sensitive {
                apply_operator(condition.operator.as_str(), raw.as_str(), condition.value.as_str())
            } else {
                let field = to_lowercase(raw.as_str());
                let value = to_lowercase(condition.value.as_str());
                apply_operator(condition.operator.as_str(), field.as_str(), value.as_str())
            }
        },
    }
}

/// A response rule.
#[derive(Debug, PartialEq, Eq)]
pub struct ResponseRule {
    pub id: String,
    pub name: String,
    pub description: String,
    pub enabled: bool,
    pub conditions: Vec<ResponseCondition>,
    pub actions: Vec<ResponseAction>,
    pub priority: u8,
    /// Milliseconds between two triggers; the engine's default where `None`.
    pub cooldown_ms: Option<u64>,
    pub last_triggered: Option<u64>,
}

/// What a `ResponseRule` holds, as mathematical values.
pub struct ResponseRuleView {
    pub id: Seq<char>,
    pub name: Seq<char>,
    pub description: Seq<char>,
    pub enabled: bool,
    pub conditions: Seq<ResponseConditionView>,
    pub actions: Seq<ResponseActionView>,
    pub priority: u8,
    pub cooldown_ms: Option<u64>,
    pub last_triggered: Option<u64>,
}

impl DeepView for ResponseRule {
    type V = ResponseRuleView;

    open spec fn deep_view(&self) -> ResponseRuleView {
        ResponseRuleView {
            id: self.id@,
            name: self.name@,
            description: self.description@,
            enabled: self.enabled,
            conditions: self.conditions.deep_view(),
            actions: self.actions.deep_view(),
            priority: self.priority,
            cooldown_ms: self.cooldown_ms,
            last_triggered: self.last_triggered,
        }
    }
}

impl View for ResponseRule {
    type V = ResponseRuleView;

    open spec fn view(&self) -> ResponseRuleView {
        self.deep_view()
    }
}

impl ResponseRuleView {
    /// Whether the rule's cooldown is active at `now`.
    pub open spec fn cooling(self, now: u64, default_cooldown_ms: u64) -> bool {
        let cooldown = match self.cooldown_ms {
            Some(c) => c,
            None => default_cooldown_ms,
        };
        self.last_triggered is Some && elapsed(now, self.last_triggered->Some_0) < cooldown
    }

    /// A rule fires for an incident iff it is enabled, its cooldown is not
    /// active and every one of its conditions holds.
    pub open spec fn fires(self, inc: IncidentView, now: u64, default_cooldown_ms: u64) -> bool {
        &&& self.enabled
        &&& !self.cooling(now, default_cooldown_ms)
        &&& conditions_hold(self.conditions, inc)
    }

    /// Whether this rule is tried before `other`: by higher priority, and
    /// among equal priorities by the smaller identifier.
    pub open spec fn before(self, other: ResponseRuleView) -> bool {
        self.priority > other.priority || (self.priority == other.priority && text_lt(
            self.id,
            other.id,
        ))
    }
}

/// Whether a list of rules stands in the order in which rules are tried.
pub open spec fn rules_ordered(rules: Seq<ResponseRuleView>) -> bool {
    forall|i: int, j: int| 0 <= i < j < rules.len() ==> !rules[j].before(rules[i])
}

/// No rule is tried before itself, and the order is transitive.
pub proof fn lemma_rule_order(a: ResponseRuleView, b: ResponseRuleView, c: ResponseRuleView)
    ensures
        !a.before(a),
        a.before(b) && b.before(c) ==> a.before(c),
        a.before(b) ==> !b.before(a),
{
    lemma_bytes_lt_irreflexive(encode_utf8(a.id));
    if a.before(b) && b.before(c) {
        if a.priority == b.priority && b.priority == c.priority {
            lemma_bytes_lt_transitive(encode_utf8(a.id), encode_utf8(b.id), encode_utf8(c.id));
        }
    }
    if a.before(b) && b.before(a) {
        lemma_bytes_lt_transitive(encode_utf8(a.id), encode_utf8(b.id), encode_utf8(a.id));
    }
}

impl ResponseRule {
    /// Whether every condition of the rule holds of an incident.
    pub fn evaluate_rule_conditions(&self, incident: &Incident) -> (r: bool)
        ensures
            r == conditions_hold(self@.conditions, incident@),
    {
        let mut i: usize = 0;
        while i < self.conditions.len()
            invariant
                i <= self.conditions@.len(),
                forall|j: int|
                    0 <= j < i ==> condition_holds(#[trigger] self@.conditions[j], incident@),
            decreases self.conditions@.len() - i,
        {
            if !evaluate_condition(&self.conditions[i], incident) {
                proof {
                    assert(!condition_holds(self@.conditions[i as int], incident@));
                }
                return false;
            }
            i += 1;
        }
        true
    }

    /// Whether the rule's cooldown is active at `now`.
    pub fn is_cooling(&self, now: u64, default_cooldown_ms: u64) -> (r: bool)
        ensures
            r == self@.cooling(now, default_cooldown_ms),
    {
        let cooldown = match self.cooldown_ms {
            Some(c) => c,
            None => default_cooldown_ms,
        };
        match self.last_triggered {
            Some(t) => (if now >= t {
                now - t
            } else {
                0
            }) < cooldown,
            None => false,
        }
    }

    /// Whether the rule fires for an incident at `now`.
    pub fn fires(&self, incident: &Incident, now: u64, default_cooldown_ms: u64) -> (r: bool)
        ensures
            r == self@.fires(incident@, now, default_cooldown_ms),
    {
        self.enabled && !self.is_cooling(now, default_cooldown_ms) && self.evaluate_rule_conditions(
            incident,
        )
    }

    /// Whether this rule is tried before `other`.
    pub fn is_before(&self, other: &ResponseRule) -> (r: bool)
        ensures
            r == self@.before(other@),
    {
        self.priority > other.priority || (self.priority == other.priority && str_lt(
            self.id.as_str(),
            other.id.as_str(),
        ))
    }
}

/// The rule that logs every incident of severity High.
pub open spec fn default_rule() -> ResponseRuleView {
    ResponseRuleView {
        id: "default_high_severity_log"@,
        name: "Log High Severity Incidents"@,
        description: "Log all high severity incidents for audit."@,
        enabled: true,
        conditions: seq![
            ResponseConditionView {
                field: "severity"@,
                operator: "equals"@,
                value: "High"@,
                case_sensitive: false,
            },
        ],
        actions: seq![ResponseActionView::LogOnly { message: "High severity incident logged"@ }],
        priority: 1,
        cooldown_ms: Some(0u64),
        last_triggered: None,
    }
}

/// Builds the rule that logs every incident of severity High.
pub fn make_default_rule() -> (r: ResponseRule)
    ensures
        r@ == default_rule(),
{
    let mut conditions: Vec<ResponseCondition> = Vec::new();
    conditions.push(
        ResponseCondition {
            field: String::from_str("severity"),
            operator: String::from_str("equals"),
            value: String::from_str("High"),
            case_sensitive: false,
        },
    );
    let mut actions: Vec<ResponseAction> = Vec::new();
    actions.push(ResponseAction::LogOnly { message: String::from_str("High severity incident logged") });
    let r = ResponseRule {
        id: String::from_str("default_high_severity_log"),
        name: String::from_str("Log High Severity Incidents"),
        description: String::from_str("Log all high severity incidents for audit."),
        enabled: true,
        conditions,
        actions,
        priority: 1,
        cooldown_ms: Some(0),
        last_triggered: None,
    };
    proof {
        assert(r@.conditions =~= default_rule().conditions);
        assert(r@.actions =~= default_rule().actions);
    }
    r
}

} // verus!
