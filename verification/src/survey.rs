use vstd::prelude::*;

use crate::make_id::{is_id, new_id};
use crate::text::{
    chars_of, decimal, join, join_strings, lemma_split_char_len, lemma_split_crlf_len,
    push_decimal, push_str, split_char, split_chars, split_crlf, split_crlf_chars, trim,
    trim_bounds, views,
};

verus! {

/// A question: free text, or a choice among options.
#[derive(Clone, Debug, PartialEq, Eq)]
pub struct Question {
    pub number: usize,
    pub text: String,
    pub options: Option<Vec<String>>,
}

/// What a question holds, as plain values.
pub struct QuestionModel {
    pub number: nat,
    pub text: Seq<char>,
    pub options: Option<Seq<Seq<char>>>,
}

impl View for Question {
    type V = QuestionModel;

    open spec fn view(&self) -> QuestionModel {
        QuestionModel {
            number: self.number as nat,
            text: self.text@,
            options: match self.options {
                Some(o) => Some(views(o@)),
                None => None,
            },
        }
    }
}

/// The question numbered `i` that the line `t` describes: the trimmed line
/// is cut at each `:`; the first piece is the text, and the second, if there
/// is one, is cut at each `,` into the options. Further pieces are ignored.
pub open spec fn question_of(i: nat, t: Seq<char>) -> QuestionModel {
    let parts = split_char(trim(t), ':');
    QuestionModel {
        number: i,
        text: parts[0],
        options: if parts.len() > 1 {
            Some(split_char(parts[1], ','))
        } else {
            None
        },
    }
}

/// The line that describes a question: its text, then, for a choice, `:`
/// and the options separated by `,`.
pub open spec fn question_line(q: QuestionModel) -> Seq<char> {
    match q.options {
        None => q.text,
        Some(opts) => q.text + ":"@ + join(opts, ","@),
    }
}

/// The name of the form field that answers question `n`.
pub open spec fn field_name(n: nat) -> Seq<char> {
    "q"@ + decimal(n)
}

/// One radio button of question `n`, for the option `o`.
pub open spec fn radio_input(n: nat, o: Seq<char>) -> Seq<char> {
    "<input type=\"radio\" name=\""@ + field_name(n) + "\" value=\""@ + o + "\">"@ + o + "<br>"@
}

/// The radio buttons of question `n`, one per option, in order.
pub open spec fn radio_inputs(n: nat, opts: Seq<Seq<char>>) -> Seq<char>
    decreases opts.len(),
{
    if opts.len() == 0 {
        Seq::<char>::empty()
    } else {
        radio_inputs(n, opts.drop_last()) + radio_input(n, opts.last())
    }
}

/// The HTML form fragment of a question: its text, then a text input or
/// one radio button per option.
pub open spec fn question_html(q: QuestionModel) -> Seq<char> {
    match q.options {
        None => q.text + "<br><input type=\"text\" name=\""@ + field_name(q.number) + "\"></br>"@,
        Some(opts) => q.text + "<br>"@ + radio_inputs(q.number, opts),
    }
}

impl Question {
    /// The HTML form fragment that asks this question.
    pub fn to_html_string(&self) -> (r: String)
        ensures
            r@ == question_html(self@),
    {
        let mut r = String::new();
        push_str(&mut r, self.text.as_str());
        match &self.options {
            None => {
                push_str(&mut r, "<br><input type=\"text\" name=\"");
                push_str(&mut r, "q");
                push_decimal(&mut r, self.number);
                push_str(&mut r, "\"></br>");
                assert(r@ =~= question_html(self@));
            },
            Some(opts) => {
                push_str(&mut r, "<br>");
                let ghost head = r@;
                let ghost n = self.number as nat;
                let mut i: usize = 0;
                while i < opts.len()
                    invariant
                        i <= opts.len(),
                        n == self.number,
                        r@ == head + radio_inputs(n, views(opts@).take(i as int)),
                    decreases opts.len() - i,
                {
                    let ghost before = r@;
                    push_str(&mut r, "<input type=\"radio\" name=\"");
                    push_str(&mut r, "q");
                    push_decimal(&mut r, self.number);
                    push_str(&mut r, "\" value=\"");
                    push_str(&mut r, opts[i].as_str());
                    push_str(&mut r, "\">");
                    push_str(&mut r, opts[i].as_str());
                    push_str(&mut r, "<br>");
                    let ghost t = views(opts@).take(i + 1);
                    assert(t.drop_last() =~= views(opts@).take(i as int));
                    assert(t.last() == opts@[i as int]@);
                    assert(r@ =~= before + radio_input(n, opts@[i as int]@));
                    i = i + 1;
                }
                assert(views(opts@).take(opts.len() as int) =~= views(opts@));
                assert(r@ =~= question_html(self@));
            },
        }
        r
    }

    /// The line that describes this question.
    pub fn as_string(&self) -> (r: String)
        ensures
            r@ == question_line(self@),
    {
        match &self.options {
            None => self.text.clone(),
            Some(opts) => {
                let mut r = self.text.clone();
                push_str(&mut r, ":");
                let rest = join_strings(opts, ",");
                push_str(&mut r, rest.as_str());
                r
            },
        }
    }

    /// The question numbered `i` that the line `t` describes.
    pub fn new(i: usize, t: &str) -> (q: Question)
        ensures
            q@ == question_of(i as nat, t@),
    {
        let v = chars_of(t);
        let (a, b) = trim_bounds(&v);
        let parts = split_chars(&v, a, b, ':');
        proof {
            lemma_split_char_len(trim(t@), ':');
        }
        let text = parts[0].clone();
        let options = if parts.len() > 1 {
            let w = chars_of(parts[1].as_str());
            assert(w@.subrange(0, w@.len() as int) == w@);
            Some(split_chars(&w, 0, w.len(), ','))
        } else {
            None
        };
        Question { number: i, text, options }
    }
}

/// The questions of each line, numbered from 0 in order.
pub open spec fn questions_of(lines: Seq<Seq<char>>) -> Seq<QuestionModel> {
    Seq::new(lines.len(), |i: int| question_of(i as nat, lines[i]))
}

/// The contents of each string slice.
pub open spec fn str_views(v: Seq<&str>) -> Seq<Seq<char>> {
    v.map_values(|s: &str| s@)
}

/// What each question holds.
pub open spec fn question_models(qs: Seq<Question>) -> Seq<QuestionModel> {
    qs.map_values(|q: Question| q@)
}

/// The questions that the lines `qs` describe, numbered from 0 in order.
pub fn make_questions(qs: &Vec<&str>) -> (r: Vec<Question>)
    ensures
        question_models(r@) == questions_of(str_views(qs@)),
{
    let mut r: Vec<Question> = Vec::new();
    let mut i: usize = 0;
    while i < qs.len()
        invariant
            i <= qs.len(),
            question_models(r@) == questions_of(str_views(qs@)).take(i as int),
        decreases qs.len() - i,
    {
        let q = Question::new(i, qs[i]);
        assert(str_views(qs@)[i as int] == qs@[i as int]@);
        let ghost r0 = r@;
        r.push(q);
        assert(question_models(r@) =~= question_models(r0).push(q@));
        i = i + 1;
        assert(question_models(r@) =~= questions_of(str_views(qs@)).take(i as int));
    }
    assert(questions_of(str_views(qs@)).take(qs.len() as int) =~= questions_of(str_views(qs@)));
    r
}

/// A survey: its public id, the key that its owner holds, and its questions.
#[derive(Clone, Debug, PartialEq, Eq)]
pub struct Survey {
    pub id: String,
    pub key: String,
    pub questions: Vec<Question>,
}

/// What a survey holds, as plain values.
pub struct SurveyModel {
    pub id: Seq<char>,
    pub key: Seq<char>,
    pub questions: Seq<QuestionModel>,
}

impl View for Survey {
    type V = SurveyModel;

    open spec fn view(&self) -> SurveyModel {
        SurveyModel { id: self.id@, key: self.key@, questions: question_models(self.questions@) }
    }
}

/// The HTML form that asks each question in turn.
pub open spec fn form_html(qs: Seq<QuestionModel>) -> Seq<char>
    decreases qs.len(),
{
    if qs.len() == 0 {
        Seq::<char>::empty()
    } else {
        form_html(qs.drop_last()) + question_html(qs.last())
    }
}

/// The answer columns of a results table with `n` questions.
pub open spec fn table_columns(n: nat) -> Seq<char>
    decreases n,
{
    if n == 0 {
        Seq::<char>::empty()
    } else {
        table_columns((n - 1) as nat) + "q"@ + decimal((n - 1) as nat) + " TEXT,\n"@
    }
}

/// The SQL statement that creates the results table of survey `id` with `n`
/// questions.
pub open spec fn create_statement(id: Seq<char>, n: nat) -> Seq<char> {
    "CREATE TABLE \""@ + id + "\" (id string PRIMARY KEY,"@ + table_columns(n) + "time string\n)"@
}

/// The SQL statement that drops the results table of survey `id`.
pub open spec fn drop_statement(id: Seq<char>) -> Seq<char> {
    "DROP TABLE \""@ + id + "\""@
}

/// The SQL statement that selects every row of the results table of survey `id`.
pub open spec fn select_statement(id: Seq<char>) -> Seq<char> {
    "SELECT * FROM \""@ + id + "\""@
}

/// The lines of each question, in order.
pub open spec fn question_lines(qs: Seq<QuestionModel>) -> Seq<Seq<char>> {
    qs.map_values(|q: QuestionModel| question_line(q))
}

/// What a survey's file holds: the line of each question, separated by `\n`.
pub open spec fn survey_text(qs: Seq<QuestionModel>) -> Seq<char> {
    join(question_lines(qs), "\n"@)
}

/// The name of a survey's file: its id, `-`, its key.
pub open spec fn survey_file_name(id: Seq<char>, key: Seq<char>) -> Seq<char> {
    id + "-"@ + key
}

/// The survey that a file named `name` holding `contents` describes: the
/// id and the key are the first two pieces of the name cut at each `-`; the
/// trimmed contents are cut at each `\r\n` into the lines of the questions.
pub open spec fn survey_from(name: Seq<char>, contents: Seq<char>) -> SurveyModel {
    let id_key = split_char(name, '-');
    SurveyModel {
        id: id_key[0],
        key: id_key[1],
        questions: questions_of(split_crlf(trim(contents))),
    }
}

impl Survey {
    /// A survey of the questions that the lines `qs` describe, with a new
    /// random id and key of 10 characters each.
    pub fn new(qs: &Vec<&str>) -> (s: Survey)
        ensures
            is_id(s@.id, 10),
            is_id(s@.key, 10),
            s@.questions == questions_of(str_views(qs@)),
    {
        let id = new_id(10);
        let key = new_id(10);
        Survey { id, key, questions: make_questions(qs) }
    }

    /// The HTML form that asks the questions of this survey.
    pub fn to_form(&self) -> (r: String)
        ensures
            r@ == form_html(self@.questions),
    {
        let mut r = String::new();
        let mut i: usize = 0;
        while i < self.questions.len()
            invariant
                i <= self.questions.len(),
                r@ == form_html(self@.questions.take(i as int)),
            decreases self.questions.len() - i,
        {
            let h = self.questions[i].to_html_string();
            push_str(&mut r, h.as_str());
            let ghost t = self@.questions.take(i + 1);
            assert(t.drop_last() =~= self@.questions.take(i as int));
            i = i + 1;
        }
        assert(self@.questions.take(self.questions.len() as int) =~= self@.questions);
        r
    }

    /// The SQL statement that creates the results table of this survey.
    pub fn to_stmnt(&self) -> (r: String)
        ensures
            r@ == create_statement(self@.id, self@.questions.len()),
    {
        let mut r = String::new();
        push_str(&mut r, "CREATE TABLE \"");
        push_str(&mut r, self.id.as_str());
        push_str(&mut r, "\" (id string PRIMARY KEY,");
        let ghost head = r@;
        let mut q: usize = 0;
        while q < self.questions.len()
            invariant
                q <= self.questions.len(),
                r@ == head + table_columns(q as nat),
            decreases self.questions.len() - q,
        {
            push_str(&mut r, "q");
            push_decimal(&mut r, q);
            push_str(&mut r, " TEXT,\n");
            q = q + 1;
            assert(r@ =~= head + table_columns(q as nat));
        }
        push_str(&mut r, "time string\n)");
        assert(r@ =~= create_statement(self@.id, self@.questions.len()));
        r
    }

    /// The SQL statement that drops the results table of this survey.
    pub fn to_drop(&self) -> (r: String)
        ensures
            r@ == drop_statement(self@.id),
    {
        let mut r = String::new();
        push_str(&mut r, "DROP TABLE \"");
        push_str(&mut r, self.id.as_str());
        push_str(&mut r, "\"");
        r
    }

    /// The SQL statement that selects the results of this survey.
    pub fn get_results(&self) -> (r: String)
        ensures
            r@ == select_statement(self@.id),
    {
        let mut r = String::new();
        push_str(&mut r, "SELECT * FROM \"");
        push_str(&mut r, self.id.as_str());
        push_str(&mut r, "\"");
        r
    }

    /// What the file of this survey holds.
    pub fn file_contents(&self) -> (r: String)
        ensures
            r@ == survey_text(self@.questions),
    {
        let mut lines: Vec<String> = Vec::new();
        let mut i: usize = 0;
        while i < self.questions.len()
            invariant
                i <= self.questions.len(),
                views(lines@) == question_lines(self@.questions).take(i as int),
            decreases self.questions.len() - i,
        {
            let l = self.questions[i].as_string();
            assert(self@.questions[i as int] == self.questions@[i as int]@);
            let ghost l0 = lines@;
            lines.push(l);
            assert(views(lines@) =~= views(l0).push(l@));
            i = i + 1;
            assert(views(lines@) =~= question_lines(self@.questions).take(i as int));
        }
        assert(question_lines(self@.questions).take(i as int) =~= question_lines(self@.questions));
        join_strings(&lines, "\n")
    }

    /// The name of the file of this survey.
    pub fn file_name(&self) -> (r: String)
        ensures
            r@ == survey_file_name(self@.id, self@.key),
    {
        let mut r = self.id.clone();
        push_str(&mut r, "-");
        push_str(&mut r, self.key.as_str());
        r
    }

    /// The survey that a file named `survey_file` holding `contents`
    /// describes. The name must have at least one `-`.
    pub fn from_contents(survey_file: &str, contents: &str) -> (s: Survey)
        requires
            split_char(survey_file@, '-').len() >= 2,
        ensures
            s@ == survey_from(survey_file@, contents@),
    {
        let nv = chars_of(survey_file);
        assert(nv@.subrange(0, nv@.len() as int) == nv@);
        let id_key = split_chars(&nv, 0, nv.len(), '-');
        let id = id_key[0].clone();
        let key = id_key[1].clone();
        let cv = chars_of(contents);
        let (a, b) = trim_bounds(&cv);
        let lines = split_crlf_chars(&cv, a, b);
        let mut refs: Vec<&str> = Vec::new();
        let mut i: usize = 0;
        while i < lines.len()
            invariant
                i <= lines.len(),
                str_views(refs@) == views(lines@).take(i as int),
            decreases lines.len() - i,
        {
            let ghost r0 = refs@;
            refs.push(lines[i].as_str());
            assert(str_views(refs@) =~= str_views(r0).push(lines@[i as int]@));
            i = i + 1;
            assert(str_views(refs@) =~= views(lines@).take(i as int));
        }
        assert(views(lines@).take(i as int) =~= views(lines@));
        let questions = make_questions(&refs);
        Survey { id, key, questions }
    }
}

/// The column names of the results of questions `qs`, each after `","`.
pub open spec fn header_texts(qs: Seq<QuestionModel>) -> Seq<char>
    decreases qs.len(),
{
    if qs.len() == 0 {
        Seq::<char>::empty()
    } else {
        header_texts(qs.drop_last()) + "\",\""@ + qs.last().text
    }
}

/// The header line of the CSV results of questions `qs`.
pub open spec fn csv_header(qs: Seq<QuestionModel>) -> Seq<char> {
    "\"id"@ + header_texts(qs) + "\",timestamp\n"@
}

/// The CSV lines of result rows: the fields of each row joined by `,`,
/// each row ended by `\n`.
pub open spec fn csv_rows(rows: Seq<Seq<Seq<char>>>) -> Seq<char>
    decreases rows.len(),
{
    if rows.len() == 0 {
        Seq::<char>::empty()
    } else {
        csv_rows(rows.drop_last()) + join(rows.last(), ","@) + "\n"@
    }
}

/// The fields of each row.
pub open spec fn row_views(rows: Seq<Vec<String>>) -> Seq<Seq<Seq<char>>> {
    rows.map_values(|r: Vec<String>| views(r@))
}

impl Survey {
    /// The CSV text of the results of this survey, whose table holds `rows`.
    pub fn results_csv(&self, rows: &Vec<Vec<String>>) -> (r: String)
        ensures
            r@ == csv_header(self@.questions) + csv_rows(row_views(rows@)),
    {
        let mut r = String::new();
        push_str(&mut r, "\"id");
        let ghost h0 = r@;
        let mut i: usize = 0;
        while i < self.questions.len()
            invariant
                i <= self.questions.len(),
                r@ == h0 + header_texts(self@.questions.take(i as int)),
            decreases self.questions.len() - i,
        {
            push_str(&mut r, "\",\"");
            push_str(&mut r, self.questions[i].text.as_str());
            let ghost t = self@.questions.take(i + 1);
            assert(t.drop_last() =~= self@.questions.take(i as int));
            assert(t.last() == self.questions@[i as int]@);
            i = i + 1;
            assert(r@ =~= h0 + header_texts(self@.questions.take(i as int)));
        }
        assert(self@.questions.take(i as int) =~= self@.questions);
        push_str(&mut r, "\",timestamp\n");
        let ghost b0 = r@;
        assert(b0 =~= csv_header(self@.questions));
        let mut k: usize = 0;
        while k < rows.len()
            invariant
                k <= rows.len(),
                r@ == b0 + csv_rows(row_views(rows@).take(k as int)),
            decreases rows.len() - k,
        {
            let line = join_strings(&rows[k], ",");
            push_str(&mut r, line.as_str());
            push_str(&mut r, "\n");
            let ghost t = row_views(rows@).take(k + 1);
            assert(t.drop_last() =~= row_views(rows@).take(k as int));
            assert(t.last() == views(rows@[k as int]@));
            k = k + 1;
            assert(r@ =~= b0 + csv_rows(row_views(rows@).take(k as int)));
        }
        assert(row_views(rows@).take(k as int) =~= row_views(rows@));
        r
    }
}

} // verus!
