use nickel::Params;
use vstd::prelude::*;

use crate::make_id::{is_id, new_id};
use crate::survey::{field_name, QuestionModel, Survey};
use crate::text::{decimal, push_decimal, push_str};

verus! {

/// The parsed form body of `nickel` (a map from field names to the values
/// given for them), declared so that contracts can speak of it; Verus sees
/// nothing inside it.
#[verifier::external_type_specification]
#[verifier::external_body]
pub struct ExParams(Params);

/// What a parsed form body holds: each field name with the values given for
/// it, in the order in which they came.
pub uninterp spec fn form_fields(p: Params) -> Map<Seq<char>, Seq<Seq<char>>>;

/// The first value given for the field `key` of `p`, if any.
pub open spec fn form_value_of(p: Params, key: Seq<char>) -> Option<Seq<char>> {
    if form_fields(p).contains_key(key) && form_fields(p)[key].len() > 0 {
        Some(form_fields(p)[key][0])
    } else {
        None
    }
}

/// `nickel::Params::get`: looks `key` up in the form's map and returns the
/// first of the values stored under it, `None` where the key is missing or
/// has no value.
#[verifier::external_body]
fn form_value<'a>(p: &'a Params, key: &str) -> (r: Option<&'a str>)
    ensures
        r is Some <==> (form_fields(*p).contains_key(key@) && form_fields(*p)[key@].len() > 0),
        r matches Some(v) ==> v@ == form_fields(*p)[key@][0],
{
    p.get(key)
}

/// The answer to the field `name`: its first value, or `no response`.
pub open spec fn form_answer(p: Params, name: Seq<char>) -> Seq<char> {
    match form_value_of(p, name) {
        Some(v) => v,
        None => "no response"@,
    }
}

/// One answer of a response: the question's number, its text, the answer.
pub type Answer = (usize, String, String);

/// A response to a survey: its own id, the survey's id, and one answer per
/// question.
#[derive(Debug)]
pub struct SResponse {
    pub id: String,
    pub s_id: String,
    pub vals: Vec<Answer>,
}

/// What a response holds, as plain values.
pub struct ResponseModel {
    pub id: Seq<char>,
    pub s_id: Seq<char>,
    pub vals: Seq<(nat, Seq<char>, Seq<char>)>,
}

/// An answer as plain values.
pub open spec fn answer_view(v: Answer) -> (nat, Seq<char>, Seq<char>) {
    (v.0 as nat, v.1@, v.2@)
}

impl View for SResponse {
    type V = ResponseModel;

    open spec fn view(&self) -> ResponseModel {
        ResponseModel {
            id: self.id@,
            s_id: self.s_id@,
            vals: self.vals@.map_values(|v: Answer| answer_view(v)),
        }
    }
}

/// The answers that the form `p` gives to the questions `qs`, in order.
pub open spec fn answers_of(p: Params, qs: Seq<QuestionModel>) -> Seq<(nat, Seq<char>, Seq<char>)> {
    Seq::new(
        qs.len(),
        |k: int| (qs[k].number, qs[k].text, form_answer(p, field_name(qs[k].number))),
    )
}

/// The columns that the answers `vals` fill.
pub open spec fn answer_columns(vals: Seq<(nat, Seq<char>, Seq<char>)>) -> Seq<char>
    decreases vals.len(),
{
    if vals.len() == 0 {
        Seq::<char>::empty()
    } else {
        answer_columns(vals.drop_last()) + "q"@ + decimal(vals.last().0) + ", "@
    }
}

/// The quoted values of the answers `vals`.
pub open spec fn answer_values(vals: Seq<(nat, Seq<char>, Seq<char>)>) -> Seq<char>
    decreases vals.len(),
{
    if vals.len() == 0 {
        Seq::<char>::empty()
    } else {
        answer_values(vals.drop_last()) + "\""@ + vals.last().2 + "\", "@
    }
}

/// The SQL statement that stores a response with id `id` to survey `s_id`,
/// given at time `t`.
pub open spec fn insert_statement(
    s_id: Seq<char>,
    id: Seq<char>,
    vals: Seq<(nat, Seq<char>, Seq<char>)>,
    t: Seq<char>,
) -> Seq<char> {
    "INSERT INTO \""@ + s_id + "\" (id, "@ + answer_columns(vals) + "time)"@ + " VALUES (\""@ + id
        + "\" ,"@ + answer_values(vals) + "\""@ + t + "\")"@
}

impl SResponse {
    /// The response that the form `p` gives to survey `s`, whose id is `id`,
    /// under a new random id of 10 characters. A question without a value
    /// in the form is answered `no response`.
    pub fn new(p: &Params, s: &Survey, id: &str) -> (r: SResponse)
        ensures
            is_id(r@.id, 10),
            r@.s_id == id@,
            r@.vals == answers_of(*p, s@.questions),
    {
        let mut result: Vec<Answer> = Vec::new();
        let mut k: usize = 0;
        while k < s.questions.len()
            invariant
                k <= s.questions.len(),
                result@.map_values(|v: Answer| answer_view(v)) == answers_of(
                    *p,
                    s@.questions,
                ).take(k as int),
            decreases s.questions.len() - k,
        {
            let q = &s.questions[k];
            let text = q.text.clone();
            let mut par = String::new();
            push_str(&mut par, "q");
            push_decimal(&mut par, q.number);
            assert(par@ == field_name(q.number as nat));
            let val = match form_value(p, par.as_str()) {
                Some(v) => v.to_owned(),
                None => "no response".to_owned(),
            };
            let ghost r0 = result@;
            result.push((q.number, text, val));
            assert(s@.questions[k as int] == q@);
            assert(result@.map_values(|v: Answer| answer_view(v)) =~= r0.map_values(
                |v: Answer| answer_view(v),
            ).push(answers_of(*p, s@.questions)[k as int]));
            k = k + 1;
            assert(result@.map_values(|v: Answer| answer_view(v)) =~= answers_of(
                *p,
                s@.questions,
            ).take(k as int));
        }
        assert(answers_of(*p, s@.questions).take(k as int) =~= answers_of(*p, s@.questions));
        SResponse { id: new_id(10), s_id: id.to_owned(), vals: result }
    }

    /// The SQL statement that stores this response, given at time `t`.
    pub fn to_stmnt(&self, t: &str) -> (r: String)
        ensures
            r@ == insert_statement(self@.s_id, self@.id, self@.vals, t@),
    {
        let mut stmnt = String::new();
        push_str(&mut stmnt, "INSERT INTO \"");
        push_str(&mut stmnt, self.s_id.as_str());
        push_str(&mut stmnt, "\" (id, ");
        let mut vals = String::new();
        push_str(&mut vals, " VALUES (\"");
        push_str(&mut vals, self.id.as_str());
        push_str(&mut vals, "\" ,");
        let ghost s0 = stmnt@;
        let ghost v0 = vals@;
        let mut k: usize = 0;
        while k < self.vals.len()
            invariant
                k <= self.vals.len(),
                stmnt@ == s0 + answer_columns(self@.vals.take(k as int)),
                vals@ == v0 + answer_values(self@.vals.take(k as int)),
            decreases self.vals.len() - k,
        {
            let r = &self.vals[k];
            push_str(&mut stmnt, "q");
            push_decimal(&mut stmnt, r.0);
            push_str(&mut stmnt, ", ");
            push_str(&mut vals, "\"");
            push_str(&mut vals, r.2.as_str());
            push_str(&mut vals, "\", ");
            let ghost t = self@.vals.take(k + 1);
            assert(t.drop_last() =~= self@.vals.take(k as int));
            assert(t.last() == answer_view(self.vals@[k as int]));
            k = k + 1;
            assert(stmnt@ =~= s0 + answer_columns(self@.vals.take(k as int)));
            assert(vals@ =~= v0 + answer_values(self@.vals.take(k as int)));
        }
        assert(self@.vals.take(k as int) =~= self@.vals);
        push_str(&mut stmnt, "time)");
        push_str(&mut vals, "\"");
        push_str(&mut vals, t);
        push_str(&mut vals, "\")");
        push_str(&mut stmnt, vals.as_str());
        assert(stmnt@ =~= insert_statement(self@.s_id, self@.id, self@.vals, t@));
        stmnt
    }
}

} // verus!
