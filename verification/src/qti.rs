//! Exporting a set of questions: as plain text, and as a package of QTI
//! XML that a learning platform imports.

use vstd::prelude::*;
use std::io::Write;
use crate::html::{
    answer_html, convert_answer_to_html, convert_latex, convert_text_to_html, latex_converted,
    text_html,
};
use crate::matching::{find_all, occurrences, replace_all, replaced_all};
use crate::model::{Answer, AnswerView, Question, QuestionView};
use crate::text::{chars_of, decimal, decimal_string, join, joined, replace, replaced};

verus! {

/// The manifest of a package, with the places for the title and for the name of the question file.
pub const MANIFEST_TEMPLATE: &'static str = "<?xml version=\"1.0\" encoding=\"UTF-8\"?>\n\
    <manifest xmlns=\"http://www.imsglobal.org/xsd/imsccv1p2/imscp_v1p1\" identifier=\"cctd0001\"\n    \
    xmlns:lom=\"http://ltsc.ieee.org/xsd/imsccv1p2/LOM/resource\"\n    \
    xmlns:lomimscc=\"http://ltsc.ieee.org/xsd/imsccv1p2/LOM/manifest\"\n    \
    xmlns:xsi=\"http://www.w3.org/2001/XMLSchema-instance\">\n    \
    <metadata>\n        \
    <schema>IMS Common Cartridge</schema>\n        \
    <schemaversion>1.2.0</schemaversion>\n        \
    <lomimscc:lom>\n            \
    <lomimscc:general>\n                \
    <lomimscc:title>\n                    \
    <lomimscc:string>{TITLE}</lomimscc:string>\n                \
    </lomimscc:title>\n            \
    </lomimscc:general>\n        \
    </lomimscc:lom>\n    \
    </metadata>\n    \
    <organizations>\n        \
    <organization identifier=\"org\" structure=\"rooted-hierarchy\">\n            \
    <item identifier=\"root\">\n                \
    <item identifier=\"iden0000001\" identifierref=\"ccres0000001\">\n                    \
    <title>{TITLE}</title>\n                \
    </item>\n            \
    </item>\n        \
    </organization>\n    \
    </organizations>\n    \
    <resources>\n        \
    <resource identifier=\"ccres0000001\" type=\"imsqti_xmlv1p2/imscc_xmlv1p2/question-bank\">\n            \
    <metadata />\n            \
    <file href=\"{XML_FILE_NAME}\" />\n        \
    </resource>\n    \
    </resources>\n\
    </manifest>\n\
    ";

/// How the question file opens.
pub const QTI_HEADER: &'static str = "<?xml version=\"1.0\" encoding=\"UTF-8\"?>\n\
    <questestinterop xmlns=\"http://www.imsglobal.org/xsd/ims_qtiasiv1p2\" xmlns:xsi=\"http://www.w3.org/2001/XMLSchema-instance\" xsi:schemaLocation=\"http://www.imsglobal.org/xsd/ims_qtiasiv1p2 http://www.imsglobal.org/profile/cc/ccv1p2/ccv1p2_qtiasiv1p2p1_v1p0.xsd\">\n    \
    <objectbank ident=\"test_bank\">";

/// How the question file closes.
pub const QTI_FOOTER: &'static str = "    </objectbank>\n\
    </questestinterop>";

/// One question of the question file, with the places for its number, its text, its choices and the number of the right choice.
pub const QTI_ITEM_TEMPLATE: &'static str = "        <item ident=\"{item_id}\">\n            \
    <itemmetadata>\n                \
    <qtimetadata>\n                    \
    <qtimetadatafield>\n                        \
    <fieldlabel>cc_profile</fieldlabel>\n                        \
    <fieldentry>cc.multiple_choice.v0p1</fieldentry>\n                    \
    </qtimetadatafield>\n                \
    </qtimetadata>\n            \
    </itemmetadata>\n            \
    <presentation>\n                \
    <material>\n                    \
    <mattext texttype=\"text/html\"><![CDATA[{question_html}]]></mattext>\n                \
    </material>\n                \
    <response_lid ident=\"{item_id}\" rcardinality=\"Single\">\n                    \
    <render_choice shuffle=\"Yes\">\n\
    {choices}\n                    \
    </render_choice>\n                \
    </response_lid>\n            \
    </presentation>\n            \
    <resprocessing>\n                \
    <outcomes>\n                    \
    <decvar maxvalue=\"100\" minvalue=\"0\" varname=\"SCORE\" vartype=\"Decimal\"/>\n                \
    </outcomes>\n                \
    <respcondition continue=\"No\">\n                    \
    <conditionvar>\n                        \
    <varequal respident=\"{item_id}\">{correct_id}</varequal>\n                    \
    </conditionvar>\n                    \
    <setvar action=\"Set\" varname=\"SCORE\">100</setvar>\n                \
    </respcondition>\n            \
    </resprocessing>\n        \
    </item>";

/// One choice of a question, with the places for its number and its text.
pub const CHOICE_TEMPLATE: &'static str = "                        <response_label ident=\"{choice_id}\">\n                            \
    <material>\n                                \
    <mattext texttype=\"text/html\">{choice_text}</mattext>\n                            \
    </material>\n                        \
    </response_label>";

/// What may not stand in the name of a file.
pub const FILENAME_PATTERN: &'static str = "[^a-zA-Z0-9_-]";

/// The name of the manifest in a package.
pub const MANIFEST_NAME: &'static str = "imsmanifest.xml";

/// Is this the right answer?
pub open spec fn is_right() -> spec_fn(AnswerView) -> bool {
    |a: AnswerView| a.is_correct
}

/// Is this a wrong answer?
pub open spec fn is_wrong() -> spec_fn(AnswerView) -> bool {
    |a: AnswerView| !a.is_correct
}

/// The line of one answer.
pub open spec fn answer_line(answer: AnswerView) -> Seq<char> {
    "a. "@ + answer.text + "\n"@
}

/// The lines of some answers, one after the other.
pub open spec fn answer_lines(answers: Seq<AnswerView>) -> Seq<char>
    decreases answers.len(),
{
    if answers.len() == 0 {
        Seq::empty()
    } else {
        answer_lines(answers.drop_last()) + answer_line(answers.last())
    }
}

/// The block of the question at `index`, counted from zero: its number and
/// text, then its answers, the right ones first.
pub open spec fn question_block(index: int, question: QuestionView) -> Seq<char> {
    decimal((index + 1) as nat) + ". "@ + question.text + "\n\n"@ + answer_lines(
        question.answers.filter(is_right()),
    ) + answer_lines(question.answers.filter(is_wrong())) + "\n\n"@
}

/// The blocks of some questions, one after the other.
pub open spec fn question_blocks(questions: Seq<QuestionView>) -> Seq<char>
    decreases questions.len(),
{
    if questions.len() == 0 {
        Seq::empty()
    } else {
        question_blocks(questions.drop_last()) + question_block(
            questions.len() - 1,
            questions.last(),
        )
    }
}

/// A set of questions as text: the title, then each question's block.
pub open spec fn txt_export(title: Seq<char>, questions: Seq<QuestionView>) -> Seq<char> {
    "Title: "@ + title + "\n\n"@ + question_blocks(questions)
}

/// Appends the lines of the answers that are right (`wanted == true`) or
/// wrong.
fn push_answer_lines(out: &mut String, answers: &Vec<Answer>, wanted: bool)
    ensures
        final(out)@ == old(out)@ + answer_lines(
            answers.deep_view().filter(
                if wanted {
                    is_right()
                } else {
                    is_wrong()
                },
            ),
        ),
{
    let ghost all = answers.deep_view();
    let ghost pred = if wanted {
        is_right()
    } else {
        is_wrong()
    };
    let mut i: usize = 0;
    proof {
        reveal(Seq::filter);
        assert(all.take(0).filter(pred) =~= Seq::empty());
        assert(out@ =~= old(out)@ + answer_lines(all.take(0).filter(pred)));
    }
    while i < answers.len()
        invariant
            i <= answers.len(),
            all == answers.deep_view(),
            pred == if wanted {
                is_right()
            } else {
                is_wrong()
            },
            out@ == old(out)@ + answer_lines(all.take(i as int).filter(pred)),
        decreases answers.len() - i,
    {
        let ghost before = all.take(i as int).filter(pred);
        let ghost text = out@;
        proof {
            assert(all.take(i + 1) =~= all.take(i as int).push(all[i as int]));
            all.take(i as int).lemma_filter_push(all[i as int], pred);
            assert(all[i as int] == answers[i as int]@);
        }
        if answers[i].is_correct == wanted {
            out.append("a. ");
            out.append(answers[i].text.as_str());
            out.append("\n");
            proof {
                let now = before.push(all[i as int]);
                assert(now.drop_last() =~= before);
                assert(out@ =~= old(out)@ + (answer_lines(before) + answer_line(all[i as int])));
            }
        }
        i += 1;
    }
    assert(all.take(answers.len() as int) =~= all);
}

/// Writes a set of questions as text: a title line, then each question with
/// its number, its text and its answers, the right ones first. It always
/// succeeds.
pub fn export_txt(title: &str, questions: &[Question]) -> (r: Result<String, String>)
    ensures
        r matches Ok(text) && text@ == txt_export(title@, questions.deep_view()),
{
    let mut output = "Title: ".to_owned();
    output.append(title);
    output.append("\n\n");
    let ghost head = output@;
    let ghost all = questions.deep_view();
    let mut i: usize = 0;
    proof {
        assert(output@ =~= head + question_blocks(all.take(0)));
    }
    while i < questions.len()
        invariant
            i <= questions.len(),
            all == questions.deep_view(),
            output@ == head + question_blocks(all.take(i as int)),
        decreases questions.len() - i,
    {
        let ghost before = output@;
        let question = &questions[i];
        proof {
            assert(all.take(i + 1).drop_last() =~= all.take(i as int));
            assert(all.take(i + 1).last() == question@);
        }
        output.append(decimal_string(i as u128 + 1).as_str());
        output.append(". ");
        output.append(question.text.as_str());
        output.append("\n\n");
        push_answer_lines(&mut output, &question.answers, true);
        push_answer_lines(&mut output, &question.answers, false);
        output.append("\n\n");
        proof {
            assert(output@ =~= before + question_block(i as int, question@));
            assert(before + question_block(i as int, question@) =~= head + question_blocks(
                all.take(i + 1),
            ));
        }
        i += 1;
    }
    assert(all.take(questions.len() as int) =~= all);
    Ok(output)
}

/// A text with the leftovers of a wrong encoding removed, typographic quotes
/// and dashes made plain, an ellipsis spelled as three dots and each tab as
/// four spaces. The replacements are made one after the other, in this
/// order.
pub open spec fn cleaned(text: Seq<char>) -> Seq<char> {
    let a = replaced(text, "\u{c3}\u{201a}"@, ""@);
    let b = replaced(a, "\u{a0}"@, " "@);
    let c = replaced(b, "\u{feff}"@, ""@);
    let d = replaced(c, "\u{201c}"@, "\""@);
    let e = replaced(d, "\u{201d}"@, "\""@);
    let f = replaced(e, "\u{2018}"@, "'"@);
    let g = replaced(f, "\u{2019}"@, "'"@);
    let h = replaced(g, "\u{201e}"@, "\""@);
    let i = replaced(h, "\u{201f}"@, "\""@);
    let j = replaced(i, "\u{2013}"@, "-"@);
    let k = replaced(j, "\u{2014}"@, "-"@);
    let l = replaced(k, "\u{2026}"@, "..."@);
    replaced(l, "\t"@, "    "@)
}

/// Removes encoding leftovers and makes typographic characters plain.
pub fn clean_special_characters(text: &str) -> (r: String)
    ensures
        r@ == cleaned(text@),
{
    let a = replace(text, "\u{c3}\u{201a}", "");
    let b = replace(a.as_str(), "\u{a0}", " ");
    let c = replace(b.as_str(), "\u{feff}", "");
    let d = replace(c.as_str(), "\u{201c}", "\"");
    let e = replace(d.as_str(), "\u{201d}", "\"");
    let f = replace(e.as_str(), "\u{2018}", "'");
    let g = replace(f.as_str(), "\u{2019}", "'");
    let h = replace(g.as_str(), "\u{201e}", "\"");
    let i = replace(h.as_str(), "\u{201f}", "\"");
    let j = replace(i.as_str(), "\u{2013}", "-");
    let k = replace(j.as_str(), "\u{2014}", "-");
    let l = replace(k.as_str(), "\u{2026}", "...");
    replace(l.as_str(), "\t", "    ")
}

/// A question's text as HTML: made plain first, then converted.
pub open spec fn question_html(question: QuestionView) -> Seq<char> {
    text_html(cleaned(question.text))
}

/// Converts a question's text to HTML.
pub fn convert_to_html(q: &Question) -> (r: String)
    ensures
        r@ == question_html(q@),
{
    let text = clean_special_characters(q.text.as_str());
    convert_text_to_html(text.as_str())
}

/// What takes the place of a character that may not stand in a file name.
pub open spec fn underscore() -> spec_fn(Seq<Option<(usize, usize)>>) -> Seq<char> {
    |groups: Seq<Option<(usize, usize)>>| "_"@
}

/// A name with every character but letters, digits, `_` and `-` replaced by
/// `_`.
pub open spec fn sanitized_filename(name: Seq<char>) -> Seq<char> {
    let spans = occurrences(FILENAME_PATTERN@, name);
    replaced_all(name, spans, spans.map_values(underscore()))
}

/// Makes a name fit for a file.
pub fn sanitize_filename(name: &str) -> (r: String)
    ensures
        r@ == sanitized_filename(name@),
{
    let spans = find_all(FILENAME_PATTERN, name);
    let all = chars_of(name);
    let mut replacements: Vec<String> = Vec::new();
    let mut m: usize = 0;
    while m < spans.len()
        invariant
            m <= spans.len(),
            replacements.len() == m,
            forall|j: int| 0 <= j < m ==> (#[trigger] replacements[j])@ == "_"@,
        decreases spans.len() - m,
    {
        replacements.push("_".to_owned());
        m += 1;
    }
    proof {
        assert(replacements.deep_view() =~= spans.deep_view().map_values(underscore()));
    }
    replace_all(&all, &spans, &replacements)
}

/// An answer's text as the HTML of a choice: made plain, its formulas
/// replaced by images, then converted line by line.
pub open spec fn choice_html(answer: AnswerView) -> Seq<char> {
    answer_html(latex_converted(cleaned(answer.text)))
}

/// The choice with the number `number`, counted from one.
pub open spec fn choice_xml(number: nat, answer: AnswerView) -> Seq<char> {
    replaced(
        replaced(CHOICE_TEMPLATE@, "{choice_id}"@, decimal(number)),
        "{choice_text}"@,
        choice_html(answer),
    )
}

/// The number of the right choice, counted from one: that of the last right
/// answer, and one where no answer is right.
pub open spec fn correct_choice(answers: Seq<AnswerView>) -> nat
    decreases answers.len(),
{
    if answers.len() == 0 {
        1
    } else if answers.last().is_correct {
        answers.len()
    } else {
        correct_choice(answers.drop_last())
    }
}

/// The question at `index`, counted from zero, as an item of the question
/// file. Each place of the template is filled in after the one before it.
pub open spec fn item_xml(index: int, question: QuestionView) -> Seq<char> {
    let number = decimal((index + 1) as nat);
    let choices = joined(
        question.answers.map(|i: int, a: AnswerView| choice_xml((i + 1) as nat, a)),
        "\n"@,
    );
    replaced(
        replaced(
            replaced(
                replaced(QTI_ITEM_TEMPLATE@, "{item_id}"@, number),
                "{question_html}"@,
                question_html(question),
            ),
            "{choices}"@,
            choices,
        ),
        "{correct_id}"@,
        decimal(correct_choice(question.answers)),
    )
}

/// The question file of a set of questions.
pub open spec fn qti_xml(questions: Seq<QuestionView>) -> Seq<char> {
    QTI_HEADER@ + "\n"@ + joined(questions.map(|i: int, q: QuestionView| item_xml(i, q)), "\n"@)
        + "\n"@ + QTI_FOOTER@
}

/// The name of the question file of a package.
pub open spec fn xml_file_name(title: Seq<char>) -> Seq<char> {
    sanitized_filename(title) + ".xml"@
}

/// The manifest of a package.
pub open spec fn manifest_xml(title: Seq<char>) -> Seq<char> {
    replaced(
        replaced(MANIFEST_TEMPLATE@, "{TITLE}"@, title),
        "{XML_FILE_NAME}"@,
        xml_file_name(title),
    )
}

/// Builds one item of the question file.
fn generate_item(index: usize, q: &Question) -> (r: String)
    ensures
        r@ == item_xml(index as int, q@),
{
    let item_id = decimal_string(index as u128 + 1);
    let html = convert_to_html(q);
    let ghost all = q.answers.deep_view();
    let mut choices: Vec<String> = Vec::new();
    let mut correct: usize = 1;
    let mut i: usize = 0;
    proof {
        assert(all.take(0) =~= Seq::empty());
    }
    while i < q.answers.len()
        invariant
            i <= q.answers.len(),
            all == q.answers.deep_view(),
            choices.len() == i,
            correct == correct_choice(all.take(i as int)),
            forall|j: int|
                0 <= j < i ==> (#[trigger] choices[j])@ == choice_xml((j + 1) as nat, all[j]),
        decreases q.answers.len() - i,
    {
        let answer = &q.answers[i];
        proof {
            assert(all.take(i + 1).drop_last() =~= all.take(i as int));
            assert(all.take(i + 1).last() == answer@);
            assert(all[i as int] == answer@);
        }
        if answer.is_correct {
            correct = i + 1;
        }
        let cleaned_text = clean_special_characters(answer.text.as_str());
        let processed = convert_latex(cleaned_text.as_str());
        let answer_text = convert_answer_to_html(processed.as_str());
        let number = decimal_string(i as u128 + 1);
        let with_id = replace(CHOICE_TEMPLATE, "{choice_id}", number.as_str());
        choices.push(replace(with_id.as_str(), "{choice_text}", answer_text.as_str()));
        i += 1;
    }
    proof {
        assert(all.take(q.answers.len() as int) =~= all);
        assert(choices.deep_view() =~= all.map(
            |i: int, a: AnswerView| choice_xml((i + 1) as nat, a),
        ));
    }
    let with_id = replace(QTI_ITEM_TEMPLATE, "{item_id}", item_id.as_str());
    let with_html = replace(with_id.as_str(), "{question_html}", html.as_str());
    let with_choices = replace(with_html.as_str(), "{choices}", join(&choices, "\n").as_str());
    replace(with_choices.as_str(), "{correct_id}", decimal_string(correct as u128).as_str())
}

/// Builds the question file of a set of questions. The title is not part of
/// it.
pub fn generate_qti_xml(_title: &str, questions: &[Question]) -> (r: String)
    ensures
        r@ == qti_xml(questions.deep_view()),
{
    let mut items: Vec<String> = Vec::new();
    let mut i: usize = 0;
    while i < questions.len()
        invariant
            i <= questions.len(),
            items.len() == i,
            forall|j: int| 0 <= j < i ==> (#[trigger] items[j])@ == item_xml(j, questions[j]@),
        decreases questions.len() - i,
    {
        items.push(generate_item(i, &questions[i]));
        i += 1;
    }
    proof {
        assert(items.deep_view() =~= questions.deep_view().map(
            |i: int, q: QuestionView| item_xml(i, q),
        ));
    }
    let mut out = QTI_HEADER.to_owned();
    out.append("\n");
    out.append(join(&items, "\n").as_str());
    out.append("\n");
    out.append(QTI_FOOTER);
    out
}

/// The two files of a package.
#[derive(Debug)]
pub struct QtiPackage {
    pub xml_file_name: String,
    pub qti_xml: String,
    pub manifest: String,
}

/// Builds the files of a package: the question file, under a name made from
/// the title, and the manifest that names it.
pub fn build_qti_package(title: &str, questions: &[Question]) -> (r: QtiPackage)
    ensures
        r.xml_file_name@ == xml_file_name(title@),
        r.qti_xml@ == qti_xml(questions.deep_view()),
        r.manifest@ == manifest_xml(title@),
{
    let mut name = sanitize_filename(title);
    name.append(".xml");
    let qti_xml = generate_qti_xml(title, questions);
    let with_title = replace(MANIFEST_TEMPLATE, "{TITLE}", title);
    let manifest = replace(with_title.as_str(), "{XML_FILE_NAME}", name.as_str());
    QtiPackage { xml_file_name: name, qti_xml, manifest }
}

/// What the `zip` crate makes of two files, each a name and a text, written
/// one after the other into an archive in memory: the bytes of the archive,
/// or the number of the step that failed, counted from zero, and its cause.
pub uninterp spec fn zip_archive(
    first_name: Seq<char>,
    first: Seq<char>,
    second_name: Seq<char>,
    second: Seq<char>,
) -> Result<Seq<u8>, (u8, Seq<char>)>;

/// Writes two files into a ZIP archive in memory, with the `zip` crate:
/// `ZipWriter::start_file` and `write_all` for each, then
/// `ZipWriter::finish`. An error comes with the number of the step that
/// failed, counted from zero. The contract claims only that the outcome
/// depends on the two names and the two texts alone, and names it: the crate
/// is built without its `time` feature, so that `FileOptions::default`
/// stamps each file with the first date that the format knows, not with the
/// time of day.
#[verifier::external_body]
fn zip_two_files(first_name: &str, first: &str, second_name: &str, second: &str) -> (r: Result<
    Vec<u8>,
    (u8, String),
>)
    ensures
        match r {
            Ok(bytes) => zip_archive(first_name@, first@, second_name@, second@) == Ok::<
                Seq<u8>,
                (u8, Seq<char>),
            >(bytes@),
            Err(failure) => zip_archive(first_name@, first@, second_name@, second@) == Err::<
                Seq<u8>,
                (u8, Seq<char>),
            >((failure.0, failure.1@)),
        },
{
    let mut zip = zip::ZipWriter::new(std::io::Cursor::new(Vec::new()));
    let options = zip::write::FileOptions::default().compression_method(
        zip::CompressionMethod::Deflated,
    );
    zip.start_file(first_name, options).map_err(|e| (0, e.to_string()))?;
    zip.write_all(first.as_bytes()).map_err(|e| (1, e.to_string()))?;
    zip.start_file(second_name, options).map_err(|e| (2, e.to_string()))?;
    zip.write_all(second.as_bytes()).map_err(|e| (3, e.to_string()))?;
    Ok(zip.finish().map_err(|e| (4, e.to_string()))?.into_inner())
}

/// What is said of a step of packing that failed.
pub open spec fn packing_step(step: u8) -> Seq<char> {
    if step == 0 {
        "Failed to add XML: "@
    } else if step == 1 {
        "Failed to write XML: "@
    } else if step == 2 {
        "Failed to add manifest: "@
    } else if step == 3 {
        "Failed to write manifest: "@
    } else {
        "Failed to finalize ZIP: "@
    }
}

/// The sentence that reports a step of packing that failed, with its cause.
pub open spec fn packing_failure(step: u8, cause: Seq<char>) -> Seq<char> {
    packing_step(step) + cause
}

/// The sentence that reports a step of packing that failed, with its cause.
pub fn describe_packing_failure(step: u8, cause: &str) -> (r: String)
    ensures
        r@ == packing_failure(step, cause@),
{
    let mut out = if step == 0 {
        "Failed to add XML: ".to_owned()
    } else if step == 1 {
        "Failed to write XML: ".to_owned()
    } else if step == 2 {
        "Failed to add manifest: ".to_owned()
    } else if step == 3 {
        "Failed to write manifest: ".to_owned()
    } else {
        "Failed to finalize ZIP: ".to_owned()
    };
    out.append(cause);
    out
}

/// What packing comes to, given what the `zip` crate made of the files: the
/// archive, or the sentence that reports the step that failed.
pub open spec fn packed(outcome: Result<Seq<u8>, (u8, Seq<char>)>) -> Result<Seq<u8>, Seq<char>> {
    match outcome {
        Ok(bytes) => Ok(bytes),
        Err(failure) => Err(packing_failure(failure.0, failure.1)),
    }
}

/// A set of questions packed for a learning platform: the archive of the
/// question file, under the name made from the title, and of the manifest,
/// or the sentence that reports the step of packing that failed.
pub open spec fn qti_zip(title: Seq<char>, questions: Seq<QuestionView>) -> Result<
    Seq<u8>,
    Seq<char>,
> {
    packed(
        zip_archive(xml_file_name(title), qti_xml(questions), MANIFEST_NAME@, manifest_xml(title)),
    )
}

/// An outcome of packing, as plain mathematical values.
pub open spec fn export_view(outcome: Result<Vec<u8>, String>) -> Result<Seq<u8>, Seq<char>> {
    match outcome {
        Ok(bytes) => Ok(bytes@),
        Err(message) => Err(message@),
    }
}

/// Says what packing came to, given what the `zip` crate made of the files:
/// the archive is handed on as it is, and a step that failed is reported
/// with its cause.
pub fn packing_outcome(outcome: Result<Vec<u8>, (u8, String)>) -> (r: Result<Vec<u8>, String>)
    ensures
        export_view(r) == packed(
            match outcome {
                Ok(bytes) => Ok(bytes@),
                Err(failure) => Err((failure.0, failure.1@)),
            },
        ),
{
    match outcome {
        Ok(bytes) => Ok(bytes),
        Err((step, cause)) => Err(describe_packing_failure(step, cause.as_str())),
    }
}

/// Packs a set of questions as a ZIP archive of two files, those that
/// [`build_qti_package`] builds: first the question file, then the manifest
/// under the name [`MANIFEST_NAME`]. An error names the step of packing that
/// failed and its cause.
pub fn export_qti_zip(title: &str, questions: &[Question]) -> (r: Result<Vec<u8>, String>)
    ensures
        export_view(r) == qti_zip(title@, questions.deep_view()),
{
    let package = build_qti_package(title, questions);
    packing_outcome(
        zip_two_files(
            package.xml_file_name.as_str(),
            package.qti_xml.as_str(),
            MANIFEST_NAME,
            package.manifest.as_str(),
        ),
    )
}

} // verus!
