//! The moderation resource: request parameters with their builder, the
//! response shape, and the JSON encoding and decoding of both.
//!
//! On the wire, a request is `{"model"?: string, "input": string}` — `model`
//! left out entirely when unset, never written as `null` — and a response is
//! an object with `id`, `model`, `flagged`, a `results` array and an optional
//! `token_usage`, where the per-category keys `hate/threatening`,
//! `self-harm`, `sexual/minors` and `violence/graphic` map to the fields
//! named without the punctuation. A response object may leave any field out;
//! the decoded value then holds that field's default rather than failing.

use vstd::prelude::*;

use crate::chars::{chars_of, chars_eq_str, copy_range, string_from_chars};
use crate::error::Error;
use crate::json::{
    escape_into, escape_seq, spec_parse_bool, parse_bool, spec_parse_null, parse_null,
    spec_parse_string_at, parse_string_at, spec_parse_u64, parse_u64_at, spec_scan_number,
    scan_number, spec_skip_ws, skip_ws, wf_number,
};

verus! {

/// Parameters for a moderation request: the text to classify, and optionally
/// the moderation model to use.
#[derive(Debug)]
pub struct ModerationParam {
    pub model: Option<String>,
    pub input: String,
}

/// The mathematical value of a `ModerationParam`.
pub struct ModerationParamV {
    pub model: Option<Seq<char>>,
    pub input: Seq<char>,
}

impl View for ModerationParam {
    type V = ModerationParamV;

    open spec fn view(&self) -> ModerationParamV {
        ModerationParamV {
            model: match self.model {
                Some(m) => Some(m@),
                None => None,
            },
            input: self.input@,
        }
    }
}

/// The error a builder reports when `input` was never set.
#[derive(Debug, PartialEq, Eq, Structural, Clone, Copy)]
pub struct ModerationParamBuilderError;

/// Staged constructor for [`ModerationParam`]: `input` is mandatory,
/// `model` optional.
#[derive(Debug)]
pub struct ModerationParamBuilder {
    pub model: Option<String>,
    pub input: Option<String>,
}

impl Default for ModerationParamBuilder {
    /// A builder with nothing set.
    fn default() -> (r: Self)
        ensures
            r.model is None,
            r.input is None,
    {
        ModerationParamBuilder { model: None, input: None }
    }
}

impl ModerationParamBuilder {
    /// A builder with the mandatory `input` already set.
    pub fn new(input: String) -> (r: Self)
        ensures
            r.model is None,
            r.input matches Some(i) && i@ == input@,
    {
        ModerationParamBuilder { model: None, input: Some(input) }
    }

    /// Sets the model to use.
    pub fn model(self, model: String) -> (r: Self)
        ensures
            r.model matches Some(m) && m@ == model@,
            r.input == self.input,
    {
        ModerationParamBuilder { model: Some(model), input: self.input }
    }

    /// Sets the text to classify.
    pub fn input(self, input: String) -> (r: Self)
        ensures
            r.input matches Some(i) && i@ == input@,
            r.model == self.model,
    {
        ModerationParamBuilder { model: self.model, input: Some(input) }
    }

    /// Produces the parameters. This fails exactly when `input` was never
    /// set; it never silently produces a value with the mandatory field
    /// missing.
    pub fn build(&self) -> (r: Result<ModerationParam, ModerationParamBuilderError>)
        ensures
            match r {
                Ok(p) => self.input matches Some(i) && p.input@ == i@ && (match (
                    p.model,
                    self.model,
                ) {
                    (Some(pm), Some(sm)) => pm@ == sm@,
                    (None, None) => true,
                    _ => false,
                }),
                Err(_) => self.input is None,
            },
    {
        match &self.input {
            Some(i) => {
                let model = match &self.model {
                    Some(m) => Some(m.clone()),
                    None => None,
                };
                Ok(ModerationParam { model, input: i.clone() })
            },
            None => Err(ModerationParamBuilderError),
        }
    }
}

/// Per-category binary content-policy flags: `true` where the model judged
/// the category violated.
#[derive(Debug, Clone, Copy, PartialEq, Eq, Structural)]
pub struct Categories {
    pub hate: bool,
    pub hate_threatening: bool,
    pub self_harm: bool,
    pub sexual: bool,
    pub sexual_minors: bool,
    pub violence: bool,
    pub violence_graphic: bool,
}

impl Default for Categories {
    /// All flags clear.
    fn default() -> (r: Self)
        ensures
            r == spec_default_categories(),
    {
        Categories {
            hate: false,
            hate_threatening: false,
            self_harm: false,
            sexual: false,
            sexual_minors: false,
            violence: false,
            violence_graphic: false,
        }
    }
}

/// The all-clear value a missing category field decodes to.
pub open spec fn spec_default_categories() -> Categories {
    Categories {
        hate: false,
        hate_threatening: false,
        self_harm: false,
        sexual: false,
        sexual_minors: false,
        violence: false,
        violence_graphic: false,
    }
}

/// One per-category confidence score, kept as the decimal text the wire
/// carries, so that no precision is invented or lost in the model.
#[derive(Debug, Clone)]
pub struct Score {
    text: String,
}

impl View for Score {
    type V = Seq<char>;

    closed spec fn view(&self) -> Seq<char> {
        self.text@
    }
}

impl Score {
    /// A score from its decimal text; `None` unless the text is one
    /// well-formed JSON number.
    pub fn new(text: String) -> (r: Option<Score>)
        ensures
            (r is Some) <==> wf_number(text@),
            r matches Some(sc) ==> sc@ == text@,
    {
        let cs = chars_of(text.as_str());
        match scan_number(&cs, 0) {
            Some(j) => {
                if j == cs.len() {
                    Some(Score { text })
                } else {
                    proof {
                        assert(!wf_number(text@));
                    }
                    None
                }
            },
            None => None,
        }
    }

    /// The decimal text of the score.
    pub fn text(&self) -> (r: &String)
        ensures
            r@ == self@,
    {
        &self.text
    }
}

impl Default for Score {
    /// The zero a missing score field decodes to.
    fn default() -> (r: Self)
        ensures
            r@ == spec_zero_score(),
            wf_number(r@),
    {
        proof {
            reveal_strlit("0");
            assert(wf_number("0"@));
        }
        Score { text: String::from_str("0") }
    }
}

/// The text of the zero score.
pub open spec fn spec_zero_score() -> Seq<char> {
    "0"@
}

/// Per-category confidence scores, each between 0 and 1, higher meaning
/// higher confidence; not probabilities.
#[derive(Debug, Clone)]
pub struct CategoryScores {
    pub hate: Score,
    pub hate_threatening: Score,
    pub self_harm: Score,
    pub sexual: Score,
    pub sexual_minors: Score,
    pub violence: Score,
    pub violence_graphic: Score,
}

/// The mathematical value of a `CategoryScores`: each score's decimal text.
pub struct CategoryScoresV {
    pub hate: Seq<char>,
    pub hate_threatening: Seq<char>,
    pub self_harm: Seq<char>,
    pub sexual: Seq<char>,
    pub sexual_minors: Seq<char>,
    pub violence: Seq<char>,
    pub violence_graphic: Seq<char>,
}

impl View for CategoryScores {
    type V = CategoryScoresV;

    open spec fn view(&self) -> CategoryScoresV {
        CategoryScoresV {
            hate: self.hate@,
            hate_threatening: self.hate_threatening@,
            self_harm: self.self_harm@,
            sexual: self.sexual@,
            sexual_minors: self.sexual_minors@,
            violence: self.violence@,
            violence_graphic: self.violence_graphic@,
        }
    }
}

/// All scores zero.
pub open spec fn spec_default_scores() -> CategoryScoresV {
    CategoryScoresV {
        hate: spec_zero_score(),
        hate_threatening: spec_zero_score(),
        self_harm: spec_zero_score(),
        sexual: spec_zero_score(),
        sexual_minors: spec_zero_score(),
        violence: spec_zero_score(),
        violence_graphic: spec_zero_score(),
    }
}

impl Default for CategoryScores {
    /// All scores zero.
    fn default() -> (r: Self)
        ensures
            r@ == spec_default_scores(),
    {
        let r = CategoryScores {
            hate: Score::default(),
            hate_threatening: Score::default(),
            self_harm: Score::default(),
            sexual: Score::default(),
            sexual_minors: Score::default(),
            violence: Score::default(),
            violence_graphic: Score::default(),
        };
        proof {
            assert(r@ =~= spec_default_scores());
        }
        r
    }
}

/// One entry of a moderation response: the flags and the scores.
#[derive(Debug, Clone)]
pub struct ModerationResult {
    pub categories: Categories,
    pub category_scores: CategoryScores,
}

/// The mathematical value of a `ModerationResult`.
pub struct ModerationResultV {
    pub categories: Categories,
    pub category_scores: CategoryScoresV,
}

impl View for ModerationResult {
    type V = ModerationResultV;

    open spec fn view(&self) -> ModerationResultV {
        ModerationResultV { categories: self.categories, category_scores: self.category_scores@ }
    }
}

/// The default result a bare `{}` decodes to.
pub open spec fn spec_default_result() -> ModerationResultV {
    ModerationResultV {
        categories: spec_default_categories(),
        category_scores: spec_default_scores(),
    }
}

impl Default for ModerationResult {
    /// All flags clear and all scores zero.
    fn default() -> (r: Self)
        ensures
            r@ == spec_default_result(),
    {
        ModerationResult {
            categories: Categories::default(),
            category_scores: CategoryScores::default(),
        }
    }
}

/// Token accounting a response may carry.
#[derive(Debug, Clone, Copy, PartialEq, Eq, Structural)]
pub struct TokenUsage {
    pub prompt_tokens: u64,
    pub completion_tokens: u64,
    pub total_tokens: u64,
}

/// The zero usage a missing field decodes to.
pub open spec fn spec_default_usage() -> TokenUsage {
    TokenUsage { prompt_tokens: 0, completion_tokens: 0, total_tokens: 0 }
}

impl Default for TokenUsage {
    /// All counts zero.
    fn default() -> (r: Self)
        ensures
            r == spec_default_usage(),
    {
        TokenUsage { prompt_tokens: 0, completion_tokens: 0, total_tokens: 0 }
    }
}

/// A moderation response.
#[derive(Debug, Clone)]
pub struct Moderation {
    pub id: String,
    pub model: String,
    pub flagged: bool,
    pub results: Vec<ModerationResult>,
    pub token_usage: Option<TokenUsage>,
}

/// The per-entry view of a vector of results.
pub open spec fn results_view(v: Seq<ModerationResult>) -> Seq<ModerationResultV> {
    v.map_values(|m: ModerationResult| m@)
}

/// The mathematical value of a `Moderation`.
pub struct ModerationV {
    pub id: Seq<char>,
    pub model: Seq<char>,
    pub flagged: bool,
    pub results: Seq<ModerationResultV>,
    pub token_usage: Option<TokenUsage>,
}

impl View for Moderation {
    type V = ModerationV;

    open spec fn view(&self) -> ModerationV {
        ModerationV {
            id: self.id@,
            model: self.model@,
            flagged: self.flagged,
            results: results_view(self.results@),
            token_usage: self.token_usage,
        }
    }
}

/// The response every field of which is missing.
pub open spec fn spec_default_moderation() -> ModerationV {
    ModerationV {
        id: Seq::<char>::empty(),
        model: Seq::<char>::empty(),
        flagged: false,
        results: Seq::<ModerationResultV>::empty(),
        token_usage: None,
    }
}

impl Default for Moderation {
    /// Empty id and model, nothing flagged, no results, no usage.
    fn default() -> (r: Self)
        ensures
            r@ == spec_default_moderation(),
    {
        let r = Moderation {
            id: String::new(),
            model: String::new(),
            flagged: false,
            results: Vec::new(),
            token_usage: None,
        };
        proof {
            assert(r@.results =~= spec_default_moderation().results);
            assert(r@ =~= spec_default_moderation());
        }
        r
    }
}

// ------------------------------------------------------------------
// Encoding
// ------------------------------------------------------------------

/// A JSON string: quote, escaped content, quote.
pub open spec fn spec_ser_string(s: Seq<char>) -> Seq<char> {
    seq!['"'] + escape_seq(s) + seq!['"']
}

/// A JSON boolean literal.
pub open spec fn spec_ser_bool(b: bool) -> Seq<char> {
    if b {
        "true"@
    } else {
        "false"@
    }
}

/// The encoded form of the request parameters: `model` is present exactly
/// when set, and an unset `model` leaves no trace in the text.
pub open spec fn spec_ser_param(v: ModerationParamV) -> Seq<char> {
    match v.model {
        Some(m) => "{\"model\":"@ + spec_ser_string(m) + ",\"input\":"@ + spec_ser_string(v.input)
            + "}"@,
        None => "{\"input\":"@ + spec_ser_string(v.input) + "}"@,
    }
}

/// The encoded form of the per-category flags, each field under its wire
/// key; the keys holding `/` or `-` belong to the fields named with `_`.
pub open spec fn spec_ser_categories(c: Categories) -> Seq<char> {
    "{\"hate\":"@ + spec_ser_bool(c.hate) + ",\"hate/threatening\":"@ + spec_ser_bool(
        c.hate_threatening,
    ) + ",\"self-harm\":"@ + spec_ser_bool(c.self_harm) + ",\"sexual\":"@ + spec_ser_bool(c.sexual)
        + ",\"sexual/minors\":"@ + spec_ser_bool(c.sexual_minors) + ",\"violence\":"@
        + spec_ser_bool(c.violence) + ",\"violence/graphic\":"@ + spec_ser_bool(c.violence_graphic)
        + "}"@
}

/// The encoded form of the per-category scores, each decimal text under its
/// wire key.
pub open spec fn spec_ser_scores(c: CategoryScoresV) -> Seq<char> {
    "{\"hate\":"@ + c.hate + ",\"hate/threatening\":"@ + c.hate_threatening + ",\"self-harm\":"@
        + c.self_harm + ",\"sexual\":"@ + c.sexual + ",\"sexual/minors\":"@ + c.sexual_minors
        + ",\"violence\":"@ + c.violence + ",\"violence/graphic\":"@ + c.violence_graphic + "}"@
}

/// The encoded form of one result entry.
pub open spec fn spec_ser_result(r: ModerationResultV) -> Seq<char> {
    "{\"categories\":"@ + spec_ser_categories(r.categories) + ",\"category_scores\":"@
        + spec_ser_scores(r.category_scores) + "}"@
}

/// Concatenation of character sequences associates.
proof fn lemma_assoc(a: Seq<char>, b: Seq<char>, c: Seq<char>)
    ensures
        (a + b) + c == a + (b + c),
{
    assert((a + b) + c =~= a + (b + c));
}

/// Appends a string slice's characters.
fn append_str(out: &mut Vec<char>, s: &str)
    ensures
        final(out)@ == old(out)@ + s@,
{
    let mut t = chars_of(s);
    out.append(&mut t);
}

/// Appends a JSON boolean.
fn append_bool(out: &mut Vec<char>, b: bool)
    ensures
        final(out)@ == old(out)@ + spec_ser_bool(b),
{
    if b {
        append_str(out, "true");
    } else {
        append_str(out, "false");
    }
}

/// Appends a JSON string.
fn append_json_string(out: &mut Vec<char>, s: &String)
    ensures
        final(out)@ == old(out)@ + spec_ser_string(s@),
{
    let ghost base = out@;
    out.push('"');
    let cs = chars_of(s.as_str());
    escape_into(out, &cs);
    out.push('"');
    proof {
        assert(out@ =~= base + spec_ser_string(s@));
    }
}

/// Appends a score's decimal text.
fn append_score(out: &mut Vec<char>, sc: &Score)
    ensures
        final(out)@ == old(out)@ + sc@,
{
    let mut t = chars_of(sc.text.as_str());
    out.append(&mut t);
}

/// Appends the encoded per-category flags.
fn append_categories(out: &mut Vec<char>, c: &Categories)
    ensures
        final(out)@ == old(out)@ + spec_ser_categories(*c),
{
    let ghost base = out@;
    append_str(out, "{\"hate\":");
    append_bool(out, c.hate);
    append_str(out, ",\"hate/threatening\":");
    append_bool(out, c.hate_threatening);
    append_str(out, ",\"self-harm\":");
    append_bool(out, c.self_harm);
    append_str(out, ",\"sexual\":");
    append_bool(out, c.sexual);
    append_str(out, ",\"sexual/minors\":");
    append_bool(out, c.sexual_minors);
    append_str(out, ",\"violence\":");
    append_bool(out, c.violence);
    append_str(out, ",\"violence/graphic\":");
    append_bool(out, c.violence_graphic);
    append_str(out, "}");
    proof {
        let p1 = "{\"hate\":"@;
        let p2 = spec_ser_bool(c.hate);
        let p3 = ",\"hate/threatening\":"@;
        let p4 = spec_ser_bool(c.hate_threatening);
        let p5 = ",\"self-harm\":"@;
        let p6 = spec_ser_bool(c.self_harm);
        let p7 = ",\"sexual\":"@;
        let p8 = spec_ser_bool(c.sexual);
        let p9 = ",\"sexual/minors\":"@;
        let p10 = spec_ser_bool(c.sexual_minors);
        let p11 = ",\"violence\":"@;
        let p12 = spec_ser_bool(c.violence);
        let p13 = ",\"violence/graphic\":"@;
        let p14 = spec_ser_bool(c.violence_graphic);
        let p15 = "}"@;
        lemma_assoc(base, p1, p2);
        lemma_assoc(base, p1 + p2, p3);
        lemma_assoc(base, p1 + p2 + p3, p4);
        lemma_assoc(base, p1 + p2 + p3 + p4, p5);
        lemma_assoc(base, p1 + p2 + p3 + p4 + p5, p6);
        lemma_assoc(base, p1 + p2 + p3 + p4 + p5 + p6, p7);
        lemma_assoc(base, p1 + p2 + p3 + p4 + p5 + p6 + p7, p8);
        lemma_assoc(base, p1 + p2 + p3 + p4 + p5 + p6 + p7 + p8, p9);
        lemma_assoc(base, p1 + p2 + p3 + p4 + p5 + p6 + p7 + p8 + p9, p10);
        lemma_assoc(base, p1 + p2 + p3 + p4 + p5 + p6 + p7 + p8 + p9 + p10, p11);
        lemma_assoc(base, p1 + p2 + p3 + p4 + p5 + p6 + p7 + p8 + p9 + p10 + p11, p12);
        lemma_assoc(base, p1 + p2 + p3 + p4 + p5 + p6 + p7 + p8 + p9 + p10 + p11 + p12, p13);
        lemma_assoc(base, p1 + p2 + p3 + p4 + p5 + p6 + p7 + p8 + p9 + p10 + p11 + p12 + p13, p14);
        lemma_assoc(
            base,
            p1 + p2 + p3 + p4 + p5 + p6 + p7 + p8 + p9 + p10 + p11 + p12 + p13 + p14,
            p15,
        );
    }
}

/// Appends the encoded per-category scores.
fn append_scores(out: &mut Vec<char>, c: &CategoryScores)
    ensures
        final(out)@ == old(out)@ + spec_ser_scores(c@),
{
    let ghost base = out@;
    append_str(out, "{\"hate\":");
    append_score(out, &c.hate);
    append_str(out, ",\"hate/threatening\":");
    append_score(out, &c.hate_threatening);
    append_str(out, ",\"self-harm\":");
    append_score(out, &c.self_harm);
    append_str(out, ",\"sexual\":");
    append_score(out, &c.sexual);
    append_str(out, ",\"sexual/minors\":");
    append_score(out, &c.sexual_minors);
    append_str(out, ",\"violence\":");
    append_score(out, &c.violence);
    append_str(out, ",\"violence/graphic\":");
    append_score(out, &c.violence_graphic);
    append_str(out, "}");
    proof {
        let p1 = "{\"hate\":"@;
        let p2 = c@.hate;
        let p3 = ",\"hate/threatening\":"@;
        let p4 = c@.hate_threatening;
        let p5 = ",\"self-harm\":"@;
        let p6 = c@.self_harm;
        let p7 = ",\"sexual\":"@;
        let p8 = c@.sexual;
        let p9 = ",\"sexual/minors\":"@;
        let p10 = c@.sexual_minors;
        let p11 = ",\"violence\":"@;
        let p12 = c@.violence;
        let p13 = ",\"violence/graphic\":"@;
        let p14 = c@.violence_graphic;
        let p15 = "}"@;
        lemma_assoc(base, p1, p2);
        lemma_assoc(base, p1 + p2, p3);
        lemma_assoc(base, p1 + p2 + p3, p4);
        lemma_assoc(base, p1 + p2 + p3 + p4, p5);
        lemma_assoc(base, p1 + p2 + p3 + p4 + p5, p6);
        lemma_assoc(base, p1 + p2 + p3 + p4 + p5 + p6, p7);
        lemma_assoc(base, p1 + p2 + p3 + p4 + p5 + p6 + p7, p8);
        lemma_assoc(base, p1 + p2 + p3 + p4 + p5 + p6 + p7 + p8, p9);
        lemma_assoc(base, p1 + p2 + p3 + p4 + p5 + p6 + p7 + p8 + p9, p10);
        lemma_assoc(base, p1 + p2 + p3 + p4 + p5 + p6 + p7 + p8 + p9 + p10, p11);
        lemma_assoc(base, p1 + p2 + p3 + p4 + p5 + p6 + p7 + p8 + p9 + p10 + p11, p12);
        lemma_assoc(base, p1 + p2 + p3 + p4 + p5 + p6 + p7 + p8 + p9 + p10 + p11 + p12, p13);
        lemma_assoc(base, p1 + p2 + p3 + p4 + p5 + p6 + p7 + p8 + p9 + p10 + p11 + p12 + p13, p14);
        lemma_assoc(
            base,
            p1 + p2 + p3 + p4 + p5 + p6 + p7 + p8 + p9 + p10 + p11 + p12 + p13 + p14,
            p15,
        );
    }
}

/// Appends one encoded result entry.
fn append_result(out: &mut Vec<char>, r: &ModerationResult)
    ensures
        final(out)@ == old(out)@ + spec_ser_result(r@),
{
    let ghost base = out@;
    append_str(out, "{\"categories\":");
    append_categories(out, &r.categories);
    append_str(out, ",\"category_scores\":");
    append_scores(out, &r.category_scores);
    append_str(out, "}");
    proof {
        assert(out@ =~= base + spec_ser_result(r@));
    }
}

impl Categories {
    /// The wire text of the flags.
    pub fn to_json(&self) -> (r: String)
        ensures
            r@ == spec_ser_categories(*self),
    {
        let mut out: Vec<char> = Vec::new();
        append_categories(&mut out, self);
        string_from_chars(&out)
    }
}

impl CategoryScores {
    /// The wire text of the scores.
    pub fn to_json(&self) -> (r: String)
        ensures
            r@ == spec_ser_scores(self@),
    {
        let mut out: Vec<char> = Vec::new();
        append_scores(&mut out, self);
        string_from_chars(&out)
    }
}

impl ModerationResult {
    /// The wire text of one result entry.
    pub fn to_json(&self) -> (r: String)
        ensures
            r@ == spec_ser_result(self@),
    {
        let mut out: Vec<char> = Vec::new();
        append_result(&mut out, self);
        string_from_chars(&out)
    }
}

impl ModerationParam {
    /// The request body: `input` always present, `model` present exactly
    /// when set and absent — not `null` — otherwise.
    pub fn to_json(&self) -> (r: String)
        ensures
            r@ == spec_ser_param(self@),
    {
        let mut out: Vec<char> = Vec::new();
        match &self.model {
            Some(m) => {
                append_str(&mut out, "{\"model\":");
                append_json_string(&mut out, m);
                append_str(&mut out, ",\"input\":");
                append_json_string(&mut out, &self.input);
                append_str(&mut out, "}");
            },
            None => {
                append_str(&mut out, "{\"input\":");
                append_json_string(&mut out, &self.input);
                append_str(&mut out, "}");
            },
        }
        proof {
            assert(out@ =~= spec_ser_param(self@));
        }
        string_from_chars(&out)
    }
}

// ------------------------------------------------------------------
// Decoding
// ------------------------------------------------------------------

/// Routes a decoded boolean to the flag field its wire key names; `None` on
/// an unknown key.
pub open spec fn spec_set_category(c: Categories, key: Seq<char>, b: bool) -> Option<Categories> {
    if key == "hate"@ {
        Some(Categories { hate: b, ..c })
    } else if key == "hate/threatening"@ {
        Some(Categories { hate_threatening: b, ..c })
    } else if key == "self-harm"@ {
        Some(Categories { self_harm: b, ..c })
    } else if key == "sexual"@ {
        Some(Categories { sexual: b, ..c })
    } else if key == "sexual/minors"@ {
        Some(Categories { sexual_minors: b, ..c })
    } else if key == "violence"@ {
        Some(Categories { violence: b, ..c })
    } else if key == "violence/graphic"@ {
        Some(Categories { violence_graphic: b, ..c })
    } else {
        None
    }
}

/// Routes a decoded boolean to its flag field.
fn set_category(c: Categories, key: &Vec<char>, b: bool) -> (r: Option<Categories>)
    ensures
        r == spec_set_category(c, key@, b),
{
    if chars_eq_str(key, "hate") {
        Some(Categories { hate: b, ..c })
    } else if chars_eq_str(key, "hate/threatening") {
        Some(Categories { hate_threatening: b, ..c })
    } else if chars_eq_str(key, "self-harm") {
        Some(Categories { self_harm: b, ..c })
    } else if chars_eq_str(key, "sexual") {
        Some(Categories { sexual: b, ..c })
    } else if chars_eq_str(key, "sexual/minors") {
        Some(Categories { sexual_minors: b, ..c })
    } else if chars_eq_str(key, "violence") {
        Some(Categories { violence: b, ..c })
    } else if chars_eq_str(key, "violence/graphic") {
        Some(Categories { violence_graphic: b, ..c })
    } else {
        None
    }
}

/// Routes a decoded score text to the score field its wire key names.
pub open spec fn spec_set_score(c: CategoryScoresV, key: Seq<char>, raw: Seq<char>) -> Option<
    CategoryScoresV,
> {
    if key == "hate"@ {
        Some(CategoryScoresV { hate: raw, ..c })
    } else if key == "hate/threatening"@ {
        Some(CategoryScoresV { hate_threatening: raw, ..c })
    } else if key == "self-harm"@ {
        Some(CategoryScoresV { self_harm: raw, ..c })
    } else if key == "sexual"@ {
        Some(CategoryScoresV { sexual: raw, ..c })
    } else if key == "sexual/minors"@ {
        Some(CategoryScoresV { sexual_minors: raw, ..c })
    } else if key == "violence"@ {
        Some(CategoryScoresV { violence: raw, ..c })
    } else if key == "violence/graphic"@ {
        Some(CategoryScoresV { violence_graphic: raw, ..c })
    } else {
        None
    }
}

/// Routes a decoded score to its field.
fn set_score(c: CategoryScores, key: &Vec<char>, sc: Score) -> (r: Option<CategoryScores>)
    ensures
        match r {
            Some(x) => spec_set_score(c@, key@, sc@) == Some(x@),
            None => spec_set_score(c@, key@, sc@) is None,
        },
{
    let r = if chars_eq_str(key, "hate") {
        Some(CategoryScores { hate: sc, ..c })
    } else if chars_eq_str(key, "hate/threatening") {
        Some(CategoryScores { hate_threatening: sc, ..c })
    } else if chars_eq_str(key, "self-harm") {
        Some(CategoryScores { self_harm: sc, ..c })
    } else if chars_eq_str(key, "sexual") {
        Some(CategoryScores { sexual: sc, ..c })
    } else if chars_eq_str(key, "sexual/minors") {
        Some(CategoryScores { sexual_minors: sc, ..c })
    } else if chars_eq_str(key, "violence") {
        Some(CategoryScores { violence: sc, ..c })
    } else if chars_eq_str(key, "violence/graphic") {
        Some(CategoryScores { violence_graphic: sc, ..c })
    } else {
        None
    };
    r
}

/// The members of a flags object, from the first key at `i` to the closing
/// brace, folded over `acc`.
pub open spec fn spec_parse_cat_members(t: Seq<char>, i: int, acc: Categories) -> Option<
    (Categories, int),
>
    decreases t.len() - i,
{
    match spec_parse_string_at(t, i) {
        None => None,
        Some((key, j1)) => {
            let j2 = spec_skip_ws(t, j1);
            if j2 < t.len() && t[j2] == ':' {
                let j3 = spec_skip_ws(t, j2 + 1);
                match spec_parse_bool(t, j3) {
                    None => None,
                    Some((b, j4)) => match spec_set_category(acc, key, b) {
                        None => None,
                        Some(acc2) => {
                            let j5 = spec_skip_ws(t, j4);
                            if j5 < t.len() && t[j5] == ',' {
                                let j6 = spec_skip_ws(t, j5 + 1);
                                if i < j6 && j6 <= t.len() {
                                    spec_parse_cat_members(t, j6, acc2)
                                } else {
                                    None
                                }
                            } else if j5 < t.len() && t[j5] == '}' {
                                Some((acc2, j5 + 1))
                            } else {
                                None
                            }
                        },
                    },
                }
            } else {
                None
            }
        },
    }
}

/// A flags object at `i`: `{`, members or nothing, `}`. A missing field
/// keeps its default; an unknown key is an error.
#[verifier::opaque]
pub open spec fn spec_parse_categories(t: Seq<char>, i: int) -> Option<(Categories, int)> {
    if 0 <= i < t.len() && t[i] == '{' {
        let j = spec_skip_ws(t, i + 1);
        if j < t.len() && t[j] == '}' {
            Some((spec_default_categories(), j + 1))
        } else if i < j && j <= t.len() {
            spec_parse_cat_members(t, j, spec_default_categories())
        } else {
            None
        }
    } else {
        None
    }
}

/// Decodes the members of a flags object.
fn parse_cat_members(s: &Vec<char>, i: usize, acc0: Categories) -> (r: Option<(Categories, usize)>)
    requires
        i <= s@.len(),
    ensures
        match r {
            Some(x) => Some((x.0, x.1 as int)) == spec_parse_cat_members(s@, i as int, acc0) && i
                < x.1 <= s@.len(),
            None => spec_parse_cat_members(s@, i as int, acc0) is None,
        },
{
    let mut acc = acc0;
    let mut p = i;
    loop
        invariant
            i <= p <= s@.len(),
            spec_parse_cat_members(s@, i as int, acc0) == spec_parse_cat_members(
                s@,
                p as int,
                acc,
            ),
        decreases s@.len() - p,
    {
        match parse_string_at(s, p) {
            None => {
                return None;
            },
            Some((key, j1)) => {
                let j2 = skip_ws(s, j1);
                if !(j2 < s.len() && s[j2] == ':') {
                    return None;
                }
                let j3 = skip_ws(s, j2 + 1);
                match parse_bool(s, j3) {
                    None => {
                        return None;
                    },
                    Some((b, j4)) => {
                        match set_category(acc, &key, b) {
                            None => {
                                return None;
                            },
                            Some(acc2) => {
                                let j5 = skip_ws(s, j4);
                                if j5 < s.len() && s[j5] == ',' {
                                    let j6 = skip_ws(s, j5 + 1);
                                    acc = acc2;
                                    p = j6;
                                } else if j5 < s.len() && s[j5] == '}' {
                                    return Some((acc2, j5 + 1));
                                } else {
                                    return None;
                                }
                            },
                        }
                    },
                }
            },
        }
    }
}

/// Decodes a flags object at `i`.
pub fn parse_categories_at(s: &Vec<char>, i: usize) -> (r: Option<(Categories, usize)>)
    requires
        i <= s@.len(),
    ensures
        match r {
            Some(x) => Some((x.0, x.1 as int)) == spec_parse_categories(s@, i as int) && i < x.1
                <= s@.len(),
            None => spec_parse_categories(s@, i as int) is None,
        },
{
    proof {
        reveal(spec_parse_categories);
    }
    if !(i < s.len() && s[i] == '{') {
        return None;
    }
    let j = skip_ws(s, i + 1);
    if j < s.len() && s[j] == '}' {
        return Some((Categories::default(), j + 1));
    }
    parse_cat_members(s, j, Categories::default())
}

/// The members of a scores object.
pub open spec fn spec_parse_score_members(t: Seq<char>, i: int, acc: CategoryScoresV) -> Option<
    (CategoryScoresV, int),
>
    decreases t.len() - i,
{
    match spec_parse_string_at(t, i) {
        None => None,
        Some((key, j1)) => {
            let j2 = spec_skip_ws(t, j1);
            if j2 < t.len() && t[j2] == ':' {
                let j3 = spec_skip_ws(t, j2 + 1);
                match spec_scan_number(t, j3) {
                    None => None,
                    Some(j4) => match spec_set_score(acc, key, t.subrange(j3, j4)) {
                        None => None,
                        Some(acc2) => {
                            let j5 = spec_skip_ws(t, j4);
                            if j5 < t.len() && t[j5] == ',' {
                                let j6 = spec_skip_ws(t, j5 + 1);
                                if i < j6 && j6 <= t.len() {
                                    spec_parse_score_members(t, j6, acc2)
                                } else {
                                    None
                                }
                            } else if j5 < t.len() && t[j5] == '}' {
                                Some((acc2, j5 + 1))
                            } else {
                                None
                            }
                        },
                    },
                }
            } else {
                None
            }
        },
    }
}

/// A scores object at `i`. A missing field keeps its zero; an unknown key is
/// an error.
#[verifier::opaque]
pub open spec fn spec_parse_scores(t: Seq<char>, i: int) -> Option<(CategoryScoresV, int)> {
    if 0 <= i < t.len() && t[i] == '{' {
        let j = spec_skip_ws(t, i + 1);
        if j < t.len() && t[j] == '}' {
            Some((spec_default_scores(), j + 1))
        } else if i < j && j <= t.len() {
            spec_parse_score_members(t, j, spec_default_scores())
        } else {
            None
        }
    } else {
        None
    }
}

/// Decodes the members of a scores object.
fn parse_score_members(s: &Vec<char>, i: usize, acc0: CategoryScores) -> (r: Option<
    (CategoryScores, usize),
>)
    requires
        i <= s@.len(),
    ensures
        match r {
            Some(x) => Some((x.0@, x.1 as int)) == spec_parse_score_members(
                s@,
                i as int,
                acc0@,
            ) && i < x.1 <= s@.len(),
            None => spec_parse_score_members(s@, i as int, acc0@) is None,
        },
{
    let mut acc = acc0;
    let mut p = i;
    loop
        invariant
            i <= p <= s@.len(),
            spec_parse_score_members(s@, i as int, acc0@) == spec_parse_score_members(
                s@,
                p as int,
                acc@,
            ),
        decreases s@.len() - p,
    {
        match parse_string_at(s, p) {
            None => {
                return None;
            },
            Some((key, j1)) => {
                let j2 = skip_ws(s, j1);
                if !(j2 < s.len() && s[j2] == ':') {
                    return None;
                }
                let j3 = skip_ws(s, j2 + 1);
                match scan_number(s, j3) {
                    None => {
                        return None;
                    },
                    Some(j4) => {
                        let raw = copy_range(s, j3, j4);
                        let sc = Score { text: string_from_chars(&raw) };
                        match set_score(acc, &key, sc) {
                            None => {
                                return None;
                            },
                            Some(acc2) => {
                                let j5 = skip_ws(s, j4);
                                if j5 < s.len() && s[j5] == ',' {
                                    let j6 = skip_ws(s, j5 + 1);
                                    acc = acc2;
                                    p = j6;
                                } else if j5 < s.len() && s[j5] == '}' {
                                    return Some((acc2, j5 + 1));
                                } else {
                                    return None;
                                }
                            },
                        }
                    },
                }
            },
        }
    }
}

/// Decodes a scores object at `i`.
pub fn parse_scores_at(s: &Vec<char>, i: usize) -> (r: Option<(CategoryScores, usize)>)
    requires
        i <= s@.len(),
    ensures
        match r {
            Some(x) => Some((x.0@, x.1 as int)) == spec_parse_scores(s@, i as int) && i < x.1
                <= s@.len(),
            None => spec_parse_scores(s@, i as int) is None,
        },
{
    proof {
        reveal(spec_parse_scores);
    }
    if !(i < s.len() && s[i] == '{') {
        return None;
    }
    let j = skip_ws(s, i + 1);
    if j < s.len() && s[j] == '}' {
        return Some((CategoryScores::default(), j + 1));
    }
    parse_score_members(s, j, CategoryScores::default())
}

/// The members of one result entry: the two nested objects, and a per-result
/// `flagged` value the wire carries, read and dropped since the shape keeps
/// the flag at the top level.
pub open spec fn spec_parse_result_members(t: Seq<char>, i: int, acc: ModerationResultV) -> Option<
    (ModerationResultV, int),
>
    decreases t.len() - i,
{
    match spec_parse_string_at(t, i) {
        None => None,
        Some((key, j1)) => {
            let j2 = spec_skip_ws(t, j1);
            if j2 < t.len() && t[j2] == ':' {
                let j3 = spec_skip_ws(t, j2 + 1);
                let step: Option<(ModerationResultV, int)> = if key == "categories"@ {
                    match spec_parse_categories(t, j3) {
                        Some((c, j4)) => Some((ModerationResultV { categories: c, ..acc }, j4)),
                        None => None,
                    }
                } else if key == "category_scores"@ {
                    match spec_parse_scores(t, j3) {
                        Some((sc, j4)) => Some(
                            (ModerationResultV { category_scores: sc, ..acc }, j4),
                        ),
                        None => None,
                    }
                } else if key == "flagged"@ {
                    match spec_parse_bool(t, j3) {
                        Some((b, j4)) => Some((acc, j4)),
                        None => None,
                    }
                } else {
                    None
                };
                match step {
                    None => None,
                    Some((acc2, j4)) => {
                        let j5 = spec_skip_ws(t, j4);
                        if j5 < t.len() && t[j5] == ',' {
                            let j6 = spec_skip_ws(t, j5 + 1);
                            if i < j6 && j6 <= t.len() {
                                spec_parse_result_members(t, j6, acc2)
                            } else {
                                None
                            }
                        } else if j5 < t.len() && t[j5] == '}' {
                            Some((acc2, j5 + 1))
                        } else {
                            None
                        }
                    },
                }
            } else {
                None
            }
        },
    }
}

/// One result entry at `i`; missing members keep their defaults.
#[verifier::opaque]
pub open spec fn spec_parse_result(t: Seq<char>, i: int) -> Option<(ModerationResultV, int)> {
    if 0 <= i < t.len() && t[i] == '{' {
        let j = spec_skip_ws(t, i + 1);
        if j < t.len() && t[j] == '}' {
            Some((spec_default_result(), j + 1))
        } else if i < j && j <= t.len() {
            spec_parse_result_members(t, j, spec_default_result())
        } else {
            None
        }
    } else {
        None
    }
}

/// Decodes the members of one result entry.
fn parse_result_members(s: &Vec<char>, i: usize, acc0: ModerationResult) -> (r: Option<
    (ModerationResult, usize),
>)
    requires
        i <= s@.len(),
    ensures
        match r {
            Some(x) => Some((x.0@, x.1 as int)) == spec_parse_result_members(
                s@,
                i as int,
                acc0@,
            ) && i < x.1 <= s@.len(),
            None => spec_parse_result_members(s@, i as int, acc0@) is None,
        },
{
    let mut acc = acc0;
    let mut p = i;
    loop
        invariant
            i <= p <= s@.len(),
            spec_parse_result_members(s@, i as int, acc0@) == spec_parse_result_members(
                s@,
                p as int,
                acc@,
            ),
        decreases s@.len() - p,
    {
        match parse_string_at(s, p) {
            None => {
                return None;
            },
            Some((key, j1)) => {
                let j2 = skip_ws(s, j1);
                if !(j2 < s.len() && s[j2] == ':') {
                    return None;
                }
                let j3 = skip_ws(s, j2 + 1);
                let step: Option<(ModerationResult, usize)> = if chars_eq_str(&key, "categories") {
                    match parse_categories_at(s, j3) {
                        Some((c, j4)) => Some(
                            (
                                ModerationResult {
                                    categories: c,
                                    category_scores: acc.category_scores,
                                },
                                j4,
                            ),
                        ),
                        None => None,
                    }
                } else if chars_eq_str(&key, "category_scores") {
                    match parse_scores_at(s, j3) {
                        Some((sc, j4)) => Some(
                            (
                                ModerationResult {
                                    categories: acc.categories,
                                    category_scores: sc,
                                },
                                j4,
                            ),
                        ),
                        None => None,
                    }
                } else if chars_eq_str(&key, "flagged") {
                    match parse_bool(s, j3) {
                        Some((_b, j4)) => Some((acc, j4)),
                        None => None,
                    }
                } else {
                    None
                };
                match step {
                    None => {
                        return None;
                    },
                    Some((acc2, j4)) => {
                        let j5 = skip_ws(s, j4);
                        if j5 < s.len() && s[j5] == ',' {
                            let j6 = skip_ws(s, j5 + 1);
                            acc = acc2;
                            p = j6;
                        } else if j5 < s.len() && s[j5] == '}' {
                            return Some((acc2, j5 + 1));
                        } else {
                            return None;
                        }
                    },
                }
            },
        }
    }
}

/// Decodes one result entry at `i`.
pub fn parse_result_at(s: &Vec<char>, i: usize) -> (r: Option<(ModerationResult, usize)>)
    requires
        i <= s@.len(),
    ensures
        match r {
            Some(x) => Some((x.0@, x.1 as int)) == spec_parse_result(s@, i as int) && i < x.1
                <= s@.len(),
            None => spec_parse_result(s@, i as int) is None,
        },
{
    proof {
        reveal(spec_parse_result);
    }
    if !(i < s.len() && s[i] == '{') {
        return None;
    }
    let j = skip_ws(s, i + 1);
    if j < s.len() && s[j] == '}' {
        return Some((ModerationResult::default(), j + 1));
    }
    parse_result_members(s, j, ModerationResult::default())
}

/// The entries of a results array after the first one's position.
pub open spec fn spec_parse_result_items(t: Seq<char>, i: int, acc: Seq<ModerationResultV>) -> Option<
    (Seq<ModerationResultV>, int),
>
    decreases t.len() - i,
{
    match spec_parse_result(t, i) {
        None => None,
        Some((r, j1)) => {
            let j2 = spec_skip_ws(t, j1);
            if j2 < t.len() && t[j2] == ',' {
                let j3 = spec_skip_ws(t, j2 + 1);
                if i < j3 && j3 <= t.len() {
                    spec_parse_result_items(t, j3, acc.push(r))
                } else {
                    None
                }
            } else if j2 < t.len() && t[j2] == ']' {
                Some((acc.push(r), j2 + 1))
            } else {
                None
            }
        },
    }
}

/// A results array at `i`.
#[verifier::opaque]
pub open spec fn spec_parse_results(t: Seq<char>, i: int) -> Option<(Seq<ModerationResultV>, int)> {
    if 0 <= i < t.len() && t[i] == '[' {
        let j = spec_skip_ws(t, i + 1);
        if j < t.len() && t[j] == ']' {
            Some((Seq::<ModerationResultV>::empty(), j + 1))
        } else if i < j && j <= t.len() {
            spec_parse_result_items(t, j, Seq::<ModerationResultV>::empty())
        } else {
            None
        }
    } else {
        None
    }
}

/// Decodes the entries of a results array.
#[verifier::rlimit(100)]
fn parse_result_items(s: &Vec<char>, i: usize, acc0: Vec<ModerationResult>) -> (r: Option<
    (Vec<ModerationResult>, usize),
>)
    requires
        i <= s@.len(),
    ensures
        match r {
            Some(x) => Some((results_view(x.0@), x.1 as int)) == spec_parse_result_items(
                s@,
                i as int,
                results_view(acc0@),
            ) && i < x.1 <= s@.len(),
            None => spec_parse_result_items(s@, i as int, results_view(acc0@)) is None,
        },
{
    let ghost accv0 = results_view(acc0@);
    let mut acc = acc0;
    let mut p = i;
    loop
        invariant
            i <= p <= s@.len(),
            accv0 == results_view(acc0@),
            spec_parse_result_items(s@, i as int, accv0) == spec_parse_result_items(
                s@,
                p as int,
                results_view(acc@),
            ),
        decreases s@.len() - p,
    {
        match parse_result_at(s, p) {
            None => {
                proof {
                    assert(spec_parse_result_items(s@, p as int, results_view(acc@)) is None);
                }
                return None;
            },
            Some((one, j1)) => {
                let j2 = skip_ws(s, j1);
                let ghost prev = results_view(acc@);
                if j2 < s.len() && s[j2] == ',' {
                    let j3 = skip_ws(s, j2 + 1);
                    acc.push(one);
                    proof {
                        assert(results_view(acc@) =~= prev.push(one@));
                    }
                    p = j3;
                } else if j2 < s.len() && s[j2] == ']' {
                    acc.push(one);
                    proof {
                        assert(results_view(acc@) =~= prev.push(one@));
                    }
                    return Some((acc, j2 + 1));
                } else {
                    return None;
                }
            },
        }
    }
}

/// Decodes a results array at `i`.
pub fn parse_results_at(s: &Vec<char>, i: usize) -> (r: Option<(Vec<ModerationResult>, usize)>)
    requires
        i <= s@.len(),
    ensures
        match r {
            Some(x) => Some((results_view(x.0@), x.1 as int)) == spec_parse_results(
                s@,
                i as int,
            ) && i < x.1 <= s@.len(),
            None => spec_parse_results(s@, i as int) is None,
        },
{
    proof {
        reveal(spec_parse_results);
    }
    if !(i < s.len() && s[i] == '[') {
        return None;
    }
    let j = skip_ws(s, i + 1);
    if j < s.len() && s[j] == ']' {
        let empty: Vec<ModerationResult> = Vec::new();
        proof {
            assert(results_view(empty@) =~= Seq::<ModerationResultV>::empty());
        }
        return Some((empty, j + 1));
    }
    let empty: Vec<ModerationResult> = Vec::new();
    proof {
        assert(results_view(empty@) =~= Seq::<ModerationResultV>::empty());
    }
    parse_result_items(s, j, empty)
}

/// Routes a decoded count to the usage field its wire key names.
pub open spec fn spec_set_usage(u: TokenUsage, key: Seq<char>, v: u64) -> Option<TokenUsage> {
    if key == "prompt_tokens"@ {
        Some(TokenUsage { prompt_tokens: v, ..u })
    } else if key == "completion_tokens"@ {
        Some(TokenUsage { completion_tokens: v, ..u })
    } else if key == "total_tokens"@ {
        Some(TokenUsage { total_tokens: v, ..u })
    } else {
        None
    }
}

/// Routes a decoded count to its usage field.
fn set_usage(u: TokenUsage, key: &Vec<char>, v: u64) -> (r: Option<TokenUsage>)
    ensures
        r == spec_set_usage(u, key@, v),
{
    if chars_eq_str(key, "prompt_tokens") {
        Some(TokenUsage { prompt_tokens: v, ..u })
    } else if chars_eq_str(key, "completion_tokens") {
        Some(TokenUsage { completion_tokens: v, ..u })
    } else if chars_eq_str(key, "total_tokens") {
        Some(TokenUsage { total_tokens: v, ..u })
    } else {
        None
    }
}

/// The members of a usage object.
pub open spec fn spec_parse_usage_members(t: Seq<char>, i: int, acc: TokenUsage) -> Option<
    (TokenUsage, int),
>
    decreases t.len() - i,
{
    match spec_parse_string_at(t, i) {
        None => None,
        Some((key, j1)) => {
            let j2 = spec_skip_ws(t, j1);
            if j2 < t.len() && t[j2] == ':' {
                let j3 = spec_skip_ws(t, j2 + 1);
                match spec_parse_u64(t, j3) {
                    None => None,
                    Some((v, j4)) => match spec_set_usage(acc, key, v) {
                        None => None,
                        Some(acc2) => {
                            let j5 = spec_skip_ws(t, j4);
                            if j5 < t.len() && t[j5] == ',' {
                                let j6 = spec_skip_ws(t, j5 + 1);
                                if i < j6 && j6 <= t.len() {
                                    spec_parse_usage_members(t, j6, acc2)
                                } else {
                                    None
                                }
                            } else if j5 < t.len() && t[j5] == '}' {
                                Some((acc2, j5 + 1))
                            } else {
                                None
                            }
                        },
                    },
                }
            } else {
                None
            }
        },
    }
}

/// A usage object at `i`; missing counts stay zero.
#[verifier::opaque]
pub open spec fn spec_parse_usage(t: Seq<char>, i: int) -> Option<(TokenUsage, int)> {
    if 0 <= i < t.len() && t[i] == '{' {
        let j = spec_skip_ws(t, i + 1);
        if j < t.len() && t[j] == '}' {
            Some((spec_default_usage(), j + 1))
        } else if i < j && j <= t.len() {
            spec_parse_usage_members(t, j, spec_default_usage())
        } else {
            None
        }
    } else {
        None
    }
}

/// Decodes the members of a usage object.
fn parse_usage_members(s: &Vec<char>, i: usize, acc0: TokenUsage) -> (r: Option<(TokenUsage, usize)>)
    requires
        i <= s@.len(),
    ensures
        match r {
            Some(x) => Some((x.0, x.1 as int)) == spec_parse_usage_members(s@, i as int, acc0)
                && i < x.1 <= s@.len(),
            None => spec_parse_usage_members(s@, i as int, acc0) is None,
        },
{
    let mut acc = acc0;
    let mut p = i;
    loop
        invariant
            i <= p <= s@.len(),
            spec_parse_usage_members(s@, i as int, acc0) == spec_parse_usage_members(
                s@,
                p as int,
                acc,
            ),
        decreases s@.len() - p,
    {
        match parse_string_at(s, p) {
            None => {
                return None;
            },
            Some((key, j1)) => {
                let j2 = skip_ws(s, j1);
                if !(j2 < s.len() && s[j2] == ':') {
                    return None;
                }
                let j3 = skip_ws(s, j2 + 1);
                match parse_u64_at(s, j3) {
                    None => {
                        return None;
                    },
                    Some((v, j4)) => {
                        match set_usage(acc, &key, v) {
                            None => {
                                return None;
                            },
                            Some(acc2) => {
                                let j5 = skip_ws(s, j4);
                                if j5 < s.len() && s[j5] == ',' {
                                    let j6 = skip_ws(s, j5 + 1);
                                    acc = acc2;
                                    p = j6;
                                } else if j5 < s.len() && s[j5] == '}' {
                                    return Some((acc2, j5 + 1));
                                } else {
                                    return None;
                                }
                            },
                        }
                    },
                }
            },
        }
    }
}

/// Decodes a usage object at `i`.
pub fn parse_usage_at(s: &Vec<char>, i: usize) -> (r: Option<(TokenUsage, usize)>)
    requires
        i <= s@.len(),
    ensures
        match r {
            Some(x) => Some((x.0, x.1 as int)) == spec_parse_usage(s@, i as int) && i < x.1
                <= s@.len(),
            None => spec_parse_usage(s@, i as int) is None,
        },
{
    proof {
        reveal(spec_parse_usage);
    }
    if !(i < s.len() && s[i] == '{') {
        return None;
    }
    let j = skip_ws(s, i + 1);
    if j < s.len() && s[j] == '}' {
        return Some((TokenUsage::default(), j + 1));
    }
    parse_usage_members(s, j, TokenUsage::default())
}

/// The members of a response object: strings for `id` and `model`, the
/// `flagged` boolean, the results array, and `token_usage` as `null` or a
/// usage object.
pub open spec fn spec_parse_mod_members(t: Seq<char>, i: int, acc: ModerationV) -> Option<
    (ModerationV, int),
>
    decreases t.len() - i,
{
    match spec_parse_string_at(t, i) {
        None => None,
        Some((key, j1)) => {
            let j2 = spec_skip_ws(t, j1);
            if j2 < t.len() && t[j2] == ':' {
                let j3 = spec_skip_ws(t, j2 + 1);
                let step: Option<(ModerationV, int)> = if key == "id"@ {
                    match spec_parse_string_at(t, j3) {
                        Some((v, j4)) => Some((ModerationV { id: v, ..acc }, j4)),
                        None => None,
                    }
                } else if key == "model"@ {
                    match spec_parse_string_at(t, j3) {
                        Some((v, j4)) => Some((ModerationV { model: v, ..acc }, j4)),
                        None => None,
                    }
                } else if key == "flagged"@ {
                    match spec_parse_bool(t, j3) {
                        Some((b, j4)) => Some((ModerationV { flagged: b, ..acc }, j4)),
                        None => None,
                    }
                } else if key == "results"@ {
                    match spec_parse_results(t, j3) {
                        Some((rs, j4)) => Some((ModerationV { results: rs, ..acc }, j4)),
                        None => None,
                    }
                } else if key == "token_usage"@ {
                    match spec_parse_null(t, j3) {
                        Some(j4) => Some((ModerationV { token_usage: None, ..acc }, j4)),
                        None => match spec_parse_usage(t, j3) {
                            Some((u, j4)) => Some(
                                (ModerationV { token_usage: Some(u), ..acc }, j4),
                            ),
                            None => None,
                        },
                    }
                } else {
                    None
                };
                match step {
                    None => None,
                    Some((acc2, j4)) => {
                        let j5 = spec_skip_ws(t, j4);
                        if j5 < t.len() && t[j5] == ',' {
                            let j6 = spec_skip_ws(t, j5 + 1);
                            if i < j6 && j6 <= t.len() {
                                spec_parse_mod_members(t, j6, acc2)
                            } else {
                                None
                            }
                        } else if j5 < t.len() && t[j5] == '}' {
                            Some((acc2, j5 + 1))
                        } else {
                            None
                        }
                    },
                }
            } else {
                None
            }
        },
    }
}

/// A response object at `i`; every missing member keeps its default.
#[verifier::opaque]
pub open spec fn spec_parse_moderation(t: Seq<char>, i: int) -> Option<(ModerationV, int)> {
    if 0 <= i < t.len() && t[i] == '{' {
        let j = spec_skip_ws(t, i + 1);
        if j < t.len() && t[j] == '}' {
            Some((spec_default_moderation(), j + 1))
        } else if i < j && j <= t.len() {
            spec_parse_mod_members(t, j, spec_default_moderation())
        } else {
            None
        }
    } else {
        None
    }
}

/// A whole response text: one response object with nothing but whitespace
/// around it.
pub open spec fn spec_parse_moderation_text(t: Seq<char>) -> Option<ModerationV> {
    match spec_parse_moderation(t, spec_skip_ws(t, 0)) {
        Some((m, j)) => if spec_skip_ws(t, j) == t.len() {
            Some(m)
        } else {
            None
        },
        None => None,
    }
}

/// Decodes the members of a response object.
fn parse_mod_members(s: &Vec<char>, i: usize, acc0: Moderation) -> (r: Option<(Moderation, usize)>)
    requires
        i <= s@.len(),
    ensures
        match r {
            Some(x) => Some((x.0@, x.1 as int)) == spec_parse_mod_members(s@, i as int, acc0@)
                && i < x.1 <= s@.len(),
            None => spec_parse_mod_members(s@, i as int, acc0@) is None,
        },
{
    let ghost accv0 = acc0@;
    let mut acc = acc0;
    let mut p = i;
    loop
        invariant
            i <= p <= s@.len(),
            accv0 == acc0@,
            spec_parse_mod_members(s@, i as int, accv0) == spec_parse_mod_members(
                s@,
                p as int,
                acc@,
            ),
        decreases s@.len() - p,
    {
        match parse_string_at(s, p) {
            None => {
                return None;
            },
            Some((key, j1)) => {
                let j2 = skip_ws(s, j1);
                if !(j2 < s.len() && s[j2] == ':') {
                    return None;
                }
                let j3 = skip_ws(s, j2 + 1);
                let step: Option<(Moderation, usize)> = if chars_eq_str(&key, "id") {
                    match parse_string_at(s, j3) {
                        Some((v, j4)) => Some(
                            (Moderation { id: string_from_chars(&v), ..acc }, j4),
                        ),
                        None => None,
                    }
                } else if chars_eq_str(&key, "model") {
                    match parse_string_at(s, j3) {
                        Some((v, j4)) => Some(
                            (Moderation { model: string_from_chars(&v), ..acc }, j4),
                        ),
                        None => None,
                    }
                } else if chars_eq_str(&key, "flagged") {
                    match parse_bool(s, j3) {
                        Some((b, j4)) => Some((Moderation { flagged: b, ..acc }, j4)),
                        None => None,
                    }
                } else if chars_eq_str(&key, "results") {
                    match parse_results_at(s, j3) {
                        Some((rs, j4)) => Some((Moderation { results: rs, ..acc }, j4)),
                        None => None,
                    }
                } else if chars_eq_str(&key, "token_usage") {
                    match parse_null(s, j3) {
                        Some(j4) => Some((Moderation { token_usage: None, ..acc }, j4)),
                        None => match parse_usage_at(s, j3) {
                            Some((u, j4)) => Some((Moderation { token_usage: Some(u), ..acc }, j4)),
                            None => None,
                        },
                    }
                } else {
                    None
                };
                match step {
                    None => {
                        return None;
                    },
                    Some((acc2, j4)) => {
                        let j5 = skip_ws(s, j4);
                        if j5 < s.len() && s[j5] == ',' {
                            let j6 = skip_ws(s, j5 + 1);
                            acc = acc2;
                            p = j6;
                        } else if j5 < s.len() && s[j5] == '}' {
                            return Some((acc2, j5 + 1));
                        } else {
                            return None;
                        }
                    },
                }
            },
        }
    }
}

/// Decodes a response object at `i`.
pub fn parse_moderation_at(s: &Vec<char>, i: usize) -> (r: Option<(Moderation, usize)>)
    requires
        i <= s@.len(),
    ensures
        match r {
            Some(x) => Some((x.0@, x.1 as int)) == spec_parse_moderation(s@, i as int) && i < x.1
                <= s@.len(),
            None => spec_parse_moderation(s@, i as int) is None,
        },
{
    proof {
        reveal(spec_parse_moderation);
    }
    if !(i < s.len() && s[i] == '{') {
        return None;
    }
    let j = skip_ws(s, i + 1);
    if j < s.len() && s[j] == '}' {
        return Some((Moderation::default(), j + 1));
    }
    parse_mod_members(s, j, Moderation::default())
}

impl Moderation {
    /// Decodes a whole response body. A body that is not one response object
    /// surrounded by nothing but whitespace yields `None`.
    pub fn from_json(body: &str) -> (r: Option<Moderation>)
        ensures
            match r {
                Some(m) => spec_parse_moderation_text(body@) == Some(m@),
                None => spec_parse_moderation_text(body@) is None,
            },
    {
        let cs = chars_of(body);
        let i = skip_ws(&cs, 0);
        match parse_moderation_at(&cs, i) {
            Some((m, j)) => {
                let k = skip_ws(&cs, j);
                if k == cs.len() {
                    Some(m)
                } else {
                    None
                }
            },
            None => None,
        }
    }
}

/// The members of a request-parameters object: the optional model and the
/// mandatory input.
pub open spec fn spec_parse_param_members(
    t: Seq<char>,
    i: int,
    model: Option<Seq<char>>,
    input: Option<Seq<char>>,
) -> Option<((Option<Seq<char>>, Option<Seq<char>>), int)>
    decreases t.len() - i,
{
    match spec_parse_string_at(t, i) {
        None => None,
        Some((key, j1)) => {
            let j2 = spec_skip_ws(t, j1);
            if j2 < t.len() && t[j2] == ':' {
                let j3 = spec_skip_ws(t, j2 + 1);
                match spec_parse_string_at(t, j3) {
                    None => None,
                    Some((v, j4)) => {
                        let step: Option<(Option<Seq<char>>, Option<Seq<char>>)> = if key
                            == "model"@ {
                            Some((Some(v), input))
                        } else if key == "input"@ {
                            Some((model, Some(v)))
                        } else {
                            None
                        };
                        match step {
                            None => None,
                            Some((model2, input2)) => {
                                let j5 = spec_skip_ws(t, j4);
                                if j5 < t.len() && t[j5] == ',' {
                                    let j6 = spec_skip_ws(t, j5 + 1);
                                    if i < j6 && j6 <= t.len() {
                                        spec_parse_param_members(t, j6, model2, input2)
                                    } else {
                                        None
                                    }
                                } else if j5 < t.len() && t[j5] == '}' {
                                    Some(((model2, input2), j5 + 1))
                                } else {
                                    None
                                }
                            },
                        }
                    },
                }
            } else {
                None
            }
        },
    }
}

/// A request-parameters object at `i`. `input` must be present; `model` may
/// be missing and is then unset.
#[verifier::opaque]
pub open spec fn spec_parse_param(t: Seq<char>, i: int) -> Option<(ModerationParamV, int)> {
    if 0 <= i < t.len() && t[i] == '{' {
        let j = spec_skip_ws(t, i + 1);
        if i < j && j <= t.len() {
            match spec_parse_param_members(t, j, None, None) {
                Some(((model, input), j2)) => match input {
                    Some(inp) => Some((ModerationParamV { model, input: inp }, j2)),
                    None => None,
                },
                None => None,
            }
        } else {
            None
        }
    } else {
        None
    }
}

/// A whole request-parameters text: one object with nothing but whitespace
/// around it.
pub open spec fn spec_parse_param_text(t: Seq<char>) -> Option<ModerationParamV> {
    match spec_parse_param(t, spec_skip_ws(t, 0)) {
        Some((p, j)) => if spec_skip_ws(t, j) == t.len() {
            Some(p)
        } else {
            None
        },
        None => None,
    }
}

/// Decodes the members of a request-parameters object.
fn parse_param_members(s: &Vec<char>, i: usize, model0: Option<String>, input0: Option<String>) -> (r:
    Option<((Option<String>, Option<String>), usize)>)
    requires
        i <= s@.len(),
    ensures
        match r {
            Some(x) => Some(((opt_view(x.0.0), opt_view(x.0.1)), x.1 as int))
                == spec_parse_param_members(s@, i as int, opt_view(model0), opt_view(input0)) && i
                < x.1 <= s@.len(),
            None => spec_parse_param_members(
                s@,
                i as int,
                opt_view(model0),
                opt_view(input0),
            ) is None,
        },
{
    let ghost m0 = opt_view(model0);
    let ghost i0 = opt_view(input0);
    let mut model = model0;
    let mut input = input0;
    let mut p = i;
    loop
        invariant
            i <= p <= s@.len(),
            m0 == opt_view(model0),
            i0 == opt_view(input0),
            spec_parse_param_members(s@, i as int, m0, i0) == spec_parse_param_members(
                s@,
                p as int,
                opt_view(model),
                opt_view(input),
            ),
        decreases s@.len() - p,
    {
        match parse_string_at(s, p) {
            None => {
                return None;
            },
            Some((key, j1)) => {
                let j2 = skip_ws(s, j1);
                if !(j2 < s.len() && s[j2] == ':') {
                    return None;
                }
                let j3 = skip_ws(s, j2 + 1);
                match parse_string_at(s, j3) {
                    None => {
                        return None;
                    },
                    Some((v, j4)) => {
                        let (model2, input2): (Option<String>, Option<String>) = if chars_eq_str(
                            &key,
                            "model",
                        ) {
                            (Some(string_from_chars(&v)), input)
                        } else if chars_eq_str(&key, "input") {
                            (model, Some(string_from_chars(&v)))
                        } else {
                            return None;
                        };
                        let j5 = skip_ws(s, j4);
                        if j5 < s.len() && s[j5] == ',' {
                            let j6 = skip_ws(s, j5 + 1);
                            model = model2;
                            input = input2;
                            p = j6;
                        } else if j5 < s.len() && s[j5] == '}' {
                            return Some(((model2, input2), j5 + 1));
                        } else {
                            return None;
                        }
                    },
                }
            },
        }
    }
}

/// The view of an optional string.
pub open spec fn opt_view(o: Option<String>) -> Option<Seq<char>> {
    match o {
        Some(s) => Some(s@),
        None => None,
    }
}

/// Decodes a request-parameters object at `i`.
pub fn parse_param_at(s: &Vec<char>, i: usize) -> (r: Option<(ModerationParam, usize)>)
    requires
        i <= s@.len(),
    ensures
        match r {
            Some(x) => Some((x.0@, x.1 as int)) == spec_parse_param(s@, i as int) && i < x.1
                <= s@.len(),
            None => spec_parse_param(s@, i as int) is None,
        },
{
    proof {
        reveal(spec_parse_param);
    }
    if !(i < s.len() && s[i] == '{') {
        return None;
    }
    let j = skip_ws(s, i + 1);
    match parse_param_members(s, j, None, None) {
        Some(((model, input), j2)) => match input {
            Some(inp) => Some((ModerationParam { model, input: inp }, j2)),
            None => None,
        },
        None => None,
    }
}

impl ModerationParam {
    /// Decodes a whole request-parameters text; `None` unless it is one
    /// object, with `input` present, surrounded by nothing but whitespace.
    pub fn from_json(text: &str) -> (r: Option<ModerationParam>)
        ensures
            match r {
                Some(p) => spec_parse_param_text(text@) == Some(p@),
                None => spec_parse_param_text(text@) is None,
            },
    {
        let cs = chars_of(text);
        let i = skip_ws(&cs, 0);
        match parse_param_at(&cs, i) {
            Some((pv, j)) => {
                let k = skip_ws(&cs, j);
                if k == cs.len() {
                    Some(pv)
                } else {
                    None
                }
            },
            None => None,
        }
    }
}

/// Turns one HTTP exchange's outcome into the caller's result: a non-2xx
/// status is an HTTP-status error carrying status and body, and a 2xx body
/// either decodes as a response or is a deserialization error.
pub fn interpret_response(status: u16, body: &str) -> (r: Result<Moderation, Error>)
    ensures
        crate::spec_is_success_status(status) ==> (match spec_parse_moderation_text(body@) {
            Some(mv) => r matches Ok(m) && m@ == mv,
            None => r == Err::<Moderation, Error>(Error::Deserialization),
        }),
        !crate::spec_is_success_status(status) ==> (r matches Err(e) && e matches Error::HttpStatus(
            st,
            b,
        ) && st == status && b@ == body@),
{
    if crate::is_success_status(status) {
        match Moderation::from_json(body) {
            Some(m) => Ok(m),
            None => Err(Error::Deserialization),
        }
    } else {
        Err(Error::HttpStatus(status, body.to_owned()))
    }
}

} // verus!
