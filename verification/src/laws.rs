use vstd::prelude::*;

use crate::make_id::{is_base62, is_id};
use crate::response::{
    answer_columns, answer_values, answers_of, form_fields, insert_statement,
};
use nickel::Params;
use crate::survey::{
    csv_header, csv_rows, header_texts, question_html, question_line, question_of,
    questions_of, radio_inputs, survey_file_name, survey_from, survey_text, QuestionModel,
    SurveyModel,
};
use crate::text::{decimal, ends_crlf, join, lemma_split_char_len, split_char, split_crlf, trim};

verus! {

/// Joining the last piece with more text extends the joined text.
proof fn lemma_join_extend_last(ps: Seq<Seq<char>>, sep: Seq<char>, t: Seq<char>)
    requires
        ps.len() >= 1,
    ensures
        join(ps.update(ps.len() - 1, ps.last() + t), sep) == join(ps, sep) + t,
{
    let qs = ps.update(ps.len() - 1, ps.last() + t);
    if ps.len() == 1 {
        assert(qs[0] == ps[0] + t);
    } else {
        assert(qs.drop_last() =~= ps.drop_last());
        assert(join(qs, sep) =~= join(ps, sep) + t);
    }
}

/// Cutting text at `c` and joining the pieces with `c` gives the text back.
pub proof fn law_join_split(s: Seq<char>, c: char)
    ensures
        join(split_char(s, c), seq![c]) == s,
    decreases s.len(),
{
    if s.len() > 0 {
        let r = split_char(s.drop_last(), c);
        law_join_split(s.drop_last(), c);
        lemma_split_char_len(s.drop_last(), c);
        if s.last() == c {
            assert(r.push(Seq::<char>::empty()).drop_last() =~= r);
            assert(join(r.push(Seq::<char>::empty()), seq![c]) =~= s);
        } else {
            assert(r.last().push(s.last()) =~= r.last() + seq![s.last()]);
            lemma_join_extend_last(r, seq![c], seq![s.last()]);
            assert(s =~= s.drop_last() + seq![s.last()]);
        }
    }
}

/// Appending text free of `c` extends the last piece.
proof fn lemma_split_append(s: Seq<char>, t: Seq<char>, c: char)
    requires
        !t.contains(c),
    ensures
        split_char(s + t, c) == split_char(s, c).update(
            split_char(s, c).len() - 1,
            split_char(s, c).last() + t,
        ),
    decreases t.len(),
{
    lemma_split_char_len(s, c);
    let r = split_char(s, c);
    if t.len() == 0 {
        assert(s + t =~= s);
        assert(r.last() + t =~= r.last());
        assert(r.update(r.len() - 1, r.last() + t) =~= r);
    } else {
        let t0 = t.drop_last();
        assert(!t0.contains(c)) by {
            if t0.contains(c) {
                let i = choose|i: int| 0 <= i < t0.len() && t0[i] == c;
                assert(t[i] == c);
            }
        }
        lemma_split_append(s, t0, c);
        assert((s + t).drop_last() =~= s + t0);
        assert((s + t).last() == t.last());
        assert(t.last() != c) by {
            assert(t[t.len() - 1] == t.last());
        }
        let r1 = split_char(s + t0, c);
        lemma_split_char_len(s + t0, c);
        assert(r1.len() == r.len());
        assert(r1.last() == r.last() + t0);
        assert(split_char(s + t, c) == r1.update(r1.len() - 1, r1.last().push(t.last())));
        assert((r.last() + t0).push(t.last()) =~= r.last() + t);
        assert(split_char(s + t, c) =~= r.update(r.len() - 1, r.last() + t));
    }
}

/// Joining pieces free of `c` with `c` and cutting at `c` gives the pieces
/// back.
pub proof fn law_split_join(ps: Seq<Seq<char>>, c: char)
    requires
        ps.len() >= 1,
        forall|i: int| 0 <= i < ps.len() ==> !(#[trigger] ps[i]).contains(c),
    ensures
        split_char(join(ps, seq![c]), c) == ps,
    decreases ps.len(),
{
    let e = Seq::<char>::empty();
    if ps.len() == 1 {
        lemma_split_append(e, ps[0], c);
        assert(e + ps[0] =~= ps[0]);
        assert(split_char(e, c) =~= seq![e]);
        assert(e + ps[0] =~= ps[0]);
        assert(split_char(ps[0], c) =~= ps);
    } else {
        let qs = ps.drop_last();
        let p = ps.last();
        assert(!p.contains(c)) by {
            assert(ps[ps.len() - 1] == p);
        }
        assert forall|i: int| 0 <= i < qs.len() implies !(#[trigger] qs[i]).contains(c) by {
            assert(qs[i] == ps[i]);
        }
        law_split_join(qs, c);
        let s = join(qs, seq![c]);
        assert(join(ps, seq![c]) =~= s.push(c) + p);
        lemma_split_append(s.push(c), p, c);
        assert(s.push(c).drop_last() =~= s);
        let r = split_char(s.push(c), c);
        assert(r =~= qs.push(e));
        assert(e + p =~= p);
        assert(r.update(r.len() - 1, r.last() + p) =~= ps);
    }
}

/// Joining pieces free of `x` with a separator free of `x` gives text free of `x`.
proof fn lemma_join_free(ps: Seq<Seq<char>>, sep: Seq<char>, x: char)
    requires
        !sep.contains(x),
        forall|i: int| 0 <= i < ps.len() ==> !(#[trigger] ps[i]).contains(x),
    ensures
        !join(ps, sep).contains(x),
    decreases ps.len(),
{
    if ps.len() > 1 {
        let qs = ps.drop_last();
        assert forall|i: int| 0 <= i < qs.len() implies !(#[trigger] qs[i]).contains(x) by {
            assert(qs[i] == ps[i]);
        }
        lemma_join_free(qs, sep, x);
        let j = join(qs, sep);
        let l = ps.last();
        assert(ps[ps.len() - 1] == l);
        if (j + sep + l).contains(x) {
            let k = choose|k: int| 0 <= k < (j + sep + l).len() && (j + sep + l)[k] == x;
            if k < j.len() {
                assert(j[k] == x);
            } else if k < j.len() + sep.len() {
                assert(sep[k - j.len()] == x);
            } else {
                assert(l[k - j.len() - sep.len()] == x);
            }
        }
    } else if ps.len() == 1 {
        assert(ps[0] == join(ps, sep));
    }
}

/// Text without a carriage return followed by a line feed.
pub open spec fn no_crlf(s: Seq<char>) -> bool {
    forall|i: int| 0 <= i < s.len() - 1 ==> !(s[i] == '\r' && #[trigger] s[i + 1] == '\n')
}

/// Text without `\r\n` is a single line.
proof fn lemma_split_crlf_single(s: Seq<char>)
    requires
        no_crlf(s),
    ensures
        split_crlf(s) == seq![s],
    decreases s.len(),
{
    if s.len() > 0 {
        let s0 = s.drop_last();
        assert(no_crlf(s0)) by {
            assert forall|i: int| 0 <= i < s0.len() - 1 implies !(s0[i] == '\r' && #[trigger] s0[i
                + 1] == '\n') by {
                assert(s0[i] == s[i] && s0[i + 1] == s[i + 1]);
            }
        }
        lemma_split_crlf_single(s0);
        assert(!ends_crlf(s)) by {
            if s.len() >= 2 {
                assert(!(s[s.len() - 2] == '\r' && s[s.len() - 2 + 1] == '\n'));
            }
        }
        assert(s0.push(s.last()) =~= s);
        assert(split_crlf(s) == split_crlf(s0).update(0, split_crlf(s0).last().push(s.last())));
        assert(split_crlf(s) =~= seq![s]);
    } else {
        assert(s =~= Seq::<char>::empty());
        assert(split_crlf(s) =~= seq![s]);
    }
}

/// A question that its own line describes: the text has no `:`; a choice has
/// at least one option, and no option has `,` or `:`; the line has no white
/// space at either end.
pub open spec fn line_safe(q: QuestionModel) -> bool {
    &&& !q.text.contains(':')
    &&& q.options matches Some(o) ==> {
        &&& o.len() >= 1
        &&& forall|i: int| 0 <= i < o.len() ==> !(#[trigger] o[i]).contains(',') && !o[i].contains(':')
    }
    &&& trim(question_line(q)) == question_line(q)
}

/// Reading back the line of a question gives the question back.
pub proof fn law_question_line_roundtrip(q: QuestionModel)
    requires
        line_safe(q),
    ensures
        question_of(q.number, question_line(q)) == q,
{
    reveal_strlit(":");
    reveal_strlit(",");
    let line = question_line(q);
    match q.options {
        None => {
            law_split_join(seq![q.text], ':');
            assert(join(seq![q.text], seq![':']) == q.text);
        },
        Some(o) => {
            assert(":"@ =~= seq![':']);
            assert(","@ =~= seq![',']);
            let j = join(o, seq![',']);
            assert forall|i: int| 0 <= i < o.len() implies !(#[trigger] o[i]).contains(':') by {}
            assert(!seq![','].contains(':')) by {
                assert(seq![','][0] == ',');
            }
            lemma_join_free(o, seq![','], ':');
            let ps = seq![q.text, j];
            assert(ps.drop_last() =~= seq![q.text]);
            assert(join(seq![q.text], seq![':']) == q.text);
            assert(ps.last() == j);
            assert(join(ps, seq![':']) == q.text + seq![':'] + j);
            assert(join(ps, seq![':']) =~= line);
            assert forall|i: int| 0 <= i < ps.len() implies !(#[trigger] ps[i]).contains(':') by {
                if i == 1 {
                    assert(ps[1] == j);
                }
            }
            law_split_join(ps, ':');
            law_split_join(o, ',');
        },
    }
}

/// Reading back the file of a survey of one question, under the file's name,
/// gives the survey back.
pub proof fn law_survey_file_roundtrip(s: SurveyModel)
    requires
        is_id(s.id, 10),
        is_id(s.key, 10),
        s.questions.len() == 1,
        s.questions[0].number == 0,
        line_safe(s.questions[0]),
        no_crlf(question_line(s.questions[0])),
    ensures
        survey_from(survey_file_name(s.id, s.key), survey_text(s.questions)) == s,
{
    reveal_strlit("-");
    let q = s.questions[0];
    let line = question_line(q);
    assert(s.questions.map_values(|q: QuestionModel| question_line(q)) =~= seq![line]);
    assert(survey_text(s.questions) == line);
    lemma_split_crlf_single(line);
    law_question_line_roundtrip(q);
    assert(questions_of(seq![line]) =~= s.questions);
    let ps = seq![s.id, s.key];
    assert("-"@ =~= seq!['-']);
    assert(ps.drop_last() =~= seq![s.id]);
    assert(join(seq![s.id], seq!['-']) == s.id);
    assert(ps.last() == s.key);
    assert(join(ps, seq!['-']) == s.id + seq!['-'] + s.key);
    assert(join(ps, seq!['-']) =~= survey_file_name(s.id, s.key));
    assert forall|i: int| 0 <= i < ps.len() implies !(#[trigger] ps[i]).contains('-') by {
        let t = ps[i];
        assert(is_id(t, 10));
        if t.contains('-') {
            let k = choose|k: int| 0 <= k < t.len() && t[k] == '-';
            assert(is_base62(t[k]));
        }
    }
    law_split_join(ps, '-');
}

/// Questions read from lines are numbered from 0 in order.
pub proof fn law_questions_numbered(lines: Seq<Seq<char>>)
    ensures
        forall|i: int| 0 <= i < lines.len() ==> (#[trigger] questions_of(lines)[i]).number == i,
{
}

/// The answers of a response to a survey made from lines fill the columns
/// `q0`, `q1`, ... of its table, in order.
pub proof fn law_response_columns(p: Params, lines: Seq<Seq<char>>)
    ensures
        answers_of(p, questions_of(lines)).len() == lines.len(),
        forall|k: int|
            0 <= k < lines.len() ==> (#[trigger] answers_of(p, questions_of(lines))[k]).0 == k,
{
}

/// A survey stored under its id is found there, and the others stay as they
/// were.
pub proof fn law_store_get_after_insert(
    m: Map<Seq<char>, SurveyModel>,
    s: SurveyModel,
    id: Seq<char>,
)
    ensures
        m.insert(s.id, s).contains_key(s.id),
        m.insert(s.id, s)[s.id] == s,
        id != s.id ==> (m.insert(s.id, s).contains_key(id) <==> m.contains_key(id)),
        id != s.id && m.contains_key(id) ==> m.insert(s.id, s)[id] == m[id],
{
}

/// After a survey is taken out, its id is no longer found, and the others
/// stay as they were.
pub proof fn law_store_get_after_remove(
    m: Map<Seq<char>, SurveyModel>,
    removed: Seq<char>,
    id: Seq<char>,
)
    ensures
        !m.remove(removed).contains_key(removed),
        id != removed ==> (m.remove(removed).contains_key(id) <==> m.contains_key(id)),
        id != removed && m.contains_key(id) ==> m.remove(removed)[id] == m[id],
{
}

/// Appending a piece at the end appends it to the flattened text.
proof fn lemma_flatten_alt_push(s: Seq<Seq<char>>, x: Seq<char>)
    ensures
        s.push(x).flatten_alt() == s.flatten_alt() + x,
{
    assert(s.push(x).drop_last() =~= s);
}

/// The radio buttons of question `n`: one per option, in order.
proof fn lemma_radio_inputs_flat(n: nat, opts: Seq<Seq<char>>)
    ensures
        radio_inputs(n, opts) == Seq::new(
            opts.len(),
            |k: int|
                "<input type=\"radio\" name=\""@ + ("q"@ + decimal(n)) + "\" value=\""@ + opts[k]
                    + "\">"@ + opts[k] + "<br>"@,
        ).flatten_alt(),
    decreases opts.len(),
{
    let f = Seq::new(
        opts.len(),
        |k: int|
            "<input type=\"radio\" name=\""@ + ("q"@ + decimal(n)) + "\" value=\""@ + opts[k]
                + "\">"@ + opts[k] + "<br>"@,
    );
    if opts.len() == 0 {
        assert(f =~= Seq::<Seq<char>>::empty());
    } else {
        let o = opts.drop_last();
        lemma_radio_inputs_flat(n, o);
        let g = Seq::new(
            o.len(),
            |k: int|
                "<input type=\"radio\" name=\""@ + ("q"@ + decimal(n)) + "\" value=\""@ + o[k]
                    + "\">"@ + o[k] + "<br>"@,
        );
        assert(f =~= g.push(f.last()));
        lemma_flatten_alt_push(g, f.last());
    }
}

/// The HTML of a choice question is its text, `<br>`, and then exactly one
/// radio button per option, in the order of the options: the `k`-th is named
/// `q<number>` and carries option `k` as its value and its label.
pub proof fn law_html_one_radio_per_option(q: QuestionModel, opts: Seq<Seq<char>>)
    requires
        q.options == Some(opts),
    ensures
        question_html(q) == q.text + "<br>"@ + Seq::new(
            opts.len(),
            |k: int|
                "<input type=\"radio\" name=\""@ + ("q"@ + decimal(q.number)) + "\" value=\""@
                    + opts[k] + "\">"@ + opts[k] + "<br>"@,
        ).flatten(),
{
    lemma_radio_inputs_flat(q.number, opts);
    Seq::new(
        opts.len(),
        |k: int|
            "<input type=\"radio\" name=\""@ + ("q"@ + decimal(q.number)) + "\" value=\""@
                + opts[k] + "\">"@ + opts[k] + "<br>"@,
    ).lemma_flatten_and_flatten_alt_are_equivalent();
}

/// The answer recorded for question `k` of a response is read from the form
/// field that the survey's HTML form gives that question, `q<number>`: its
/// first value, or `no response` where the form has none.
pub proof fn law_response_reads_form_field(p: Params, qs: Seq<QuestionModel>, k: int)
    requires
        0 <= k < qs.len(),
    ensures
        answers_of(p, qs).len() == qs.len(),
        ({
            let name = "q"@ + decimal(qs[k].number);
            &&& answers_of(p, qs)[k] == (
                qs[k].number,
                qs[k].text,
                if form_fields(p).contains_key(name) && form_fields(p)[name].len() > 0 {
                    form_fields(p)[name][0]
                } else {
                    "no response"@
                },
            )
            &&& qs[k].options is None ==> question_html(qs[k]) == qs[k].text
                + "<br><input type=\"text\" name=\""@ + name + "\"></br>"@
            &&& qs[k].options matches Some(opts) ==> question_html(qs[k]) == qs[k].text + "<br>"@
                + Seq::new(
                opts.len(),
                |j: int|
                    "<input type=\"radio\" name=\""@ + name + "\" value=\""@ + opts[j] + "\">"@
                        + opts[j] + "<br>"@,
            ).flatten()
        }),
{
    if let Some(opts) = qs[k].options {
        law_html_one_radio_per_option(qs[k], opts);
    }
}

/// The column names of the answers: `q<number>, ` for each answer, in order.
proof fn lemma_answer_columns_flat(vals: Seq<(nat, Seq<char>, Seq<char>)>)
    ensures
        answer_columns(vals) == Seq::new(
            vals.len(),
            |k: int| "q"@ + decimal(vals[k].0) + ", "@,
        ).flatten_alt(),
        answer_values(vals) == Seq::new(
            vals.len(),
            |k: int| "\""@ + vals[k].2 + "\", "@,
        ).flatten_alt(),
    decreases vals.len(),
{
    let f = Seq::new(vals.len(), |k: int| "q"@ + decimal(vals[k].0) + ", "@);
    let h = Seq::new(vals.len(), |k: int| "\""@ + vals[k].2 + "\", "@);
    if vals.len() == 0 {
        assert(f =~= Seq::<Seq<char>>::empty());
        assert(h =~= Seq::<Seq<char>>::empty());
    } else {
        let v = vals.drop_last();
        lemma_answer_columns_flat(v);
        let g = Seq::new(v.len(), |k: int| "q"@ + decimal(v[k].0) + ", "@);
        let i = Seq::new(v.len(), |k: int| "\""@ + v[k].2 + "\", "@);
        assert(f =~= g.push(f.last()));
        assert(h =~= i.push(h.last()));
        lemma_flatten_alt_push(g, f.last());
        lemma_flatten_alt_push(i, h.last());
    }
}

/// The INSERT statement of a response names one column `q<number>` and one
/// quoted value for every answer, in the order of the answers.
pub proof fn law_insert_every_answer(
    s_id: Seq<char>,
    id: Seq<char>,
    vals: Seq<(nat, Seq<char>, Seq<char>)>,
    t: Seq<char>,
)
    ensures
        insert_statement(s_id, id, vals, t) == "INSERT INTO \""@ + s_id + "\" (id, "@ + Seq::new(
            vals.len(),
            |k: int| "q"@ + decimal(vals[k].0) + ", "@,
        ).flatten() + "time)"@ + " VALUES (\""@ + id + "\" ,"@ + Seq::new(
            vals.len(),
            |k: int| "\""@ + vals[k].2 + "\", "@,
        ).flatten() + "\""@ + t + "\")"@,
{
    lemma_answer_columns_flat(vals);
    Seq::new(vals.len(), |k: int| "q"@ + decimal(vals[k].0) + ", "@).lemma_flatten_and_flatten_alt_are_equivalent();
    Seq::new(vals.len(), |k: int| "\""@ + vals[k].2 + "\", "@).lemma_flatten_and_flatten_alt_are_equivalent();
}

/// The header columns after `"id`: `","` and the text of each question.
proof fn lemma_header_texts_flat(qs: Seq<QuestionModel>)
    ensures
        header_texts(qs) == Seq::new(qs.len(), |k: int| "\",\""@ + qs[k].text).flatten_alt(),
    decreases qs.len(),
{
    let f = Seq::new(qs.len(), |k: int| "\",\""@ + qs[k].text);
    if qs.len() == 0 {
        assert(f =~= Seq::<Seq<char>>::empty());
    } else {
        let q = qs.drop_last();
        lemma_header_texts_flat(q);
        let g = Seq::new(q.len(), |k: int| "\",\""@ + q[k].text);
        assert(f =~= g.push(f.last()));
        lemma_flatten_alt_push(g, f.last());
    }
}

/// The CSV lines: each row's fields joined by `,`, ended by `\n`, in order.
proof fn lemma_csv_rows_flat(rows: Seq<Seq<Seq<char>>>)
    ensures
        csv_rows(rows) == Seq::new(rows.len(), |k: int| join(rows[k], ","@) + "\n"@).flatten_alt(),
    decreases rows.len(),
{
    let f = Seq::new(rows.len(), |k: int| join(rows[k], ","@) + "\n"@);
    if rows.len() == 0 {
        assert(f =~= Seq::<Seq<char>>::empty());
    } else {
        let r = rows.drop_last();
        lemma_csv_rows_flat(r);
        let g = Seq::new(r.len(), |k: int| join(r[k], ","@) + "\n"@);
        assert(f =~= g.push(f.last()));
        lemma_flatten_alt_push(g, f.last());
    }
}

/// The CSV results name every question in the header, in order, between the
/// `id` and `timestamp` columns, and then hold one line per row, in order.
pub proof fn law_csv_every_question(qs: Seq<QuestionModel>, rows: Seq<Seq<Seq<char>>>)
    ensures
        csv_header(qs) == "\"id"@ + Seq::new(qs.len(), |k: int| "\",\""@ + qs[k].text).flatten()
            + "\",timestamp\n"@,
        csv_rows(rows) == Seq::new(rows.len(), |k: int| join(rows[k], ","@) + "\n"@).flatten(),
{
    lemma_header_texts_flat(qs);
    lemma_csv_rows_flat(rows);
    Seq::new(qs.len(), |k: int| "\",\""@ + qs[k].text).lemma_flatten_and_flatten_alt_are_equivalent();
    Seq::new(rows.len(), |k: int| join(rows[k], ","@) + "\n"@).lemma_flatten_and_flatten_alt_are_equivalent();
}

/// A survey's file holds the line of every question: where no line has a
/// line feed, cutting the file at each `\n` gives exactly one piece per
/// question, the line of that question, in order.
pub proof fn law_survey_text_every_line(qs: Seq<QuestionModel>)
    requires
        qs.len() >= 1,
        forall|k: int| 0 <= k < qs.len() ==> !(#[trigger] question_line(qs[k])).contains('\n'),
    ensures
        split_char(survey_text(qs), '\n') == Seq::new(qs.len(), |k: int| question_line(qs[k])),
{
    reveal_strlit("\n");
    assert("\n"@ =~= seq!['\n']);
    let ls = qs.map_values(|q: QuestionModel| question_line(q));
    assert(ls =~= Seq::new(qs.len(), |k: int| question_line(qs[k])));
    assert forall|i: int| 0 <= i < ls.len() implies !(#[trigger] ls[i]).contains('\n') by {
        assert(ls[i] == question_line(qs[i]));
    }
    law_split_join(ls, '\n');
}

} // verus!
