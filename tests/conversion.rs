use csv2po::convert::{convert, convert_table, ConvertError};
use csv2po::escape::escape_quotes;
use csv2po::po::{language_preamble, message_block, template_preamble};

const TEMPLATE_PREAMBLE: &str = "msgid \"\"\nmsgstr \"\"\n\"Project-Id-Version: \\n\"\n\"MIME-Version: 1.0\\n\"\n\"Content-Type: text/plain; charset=UTF-8\\n\"\n\"Content-Transfer-Encoding: 8bit\\n\"\n\n";

fn language_head(lang: &str) -> String {
    format!(
        "msgid \"\"\nmsgstr \"\"\n\"Project-Id-Version: \\n\"\n\"Language-Team: \\n\"\n\"Language: {}\\n\"\n\"Last-Translator: \\n\"\n\"PO-Revision-Date: \\n\"\n\"MIME-Version: 1.0\\n\"\n\"Content-Type: text/plain; charset=UTF-8\\n\"\n\"Content-Transfer-Encoding: 8bit\\n\"\n\n",
        lang
    )
}

fn table(rows: &[&[&str]]) -> Vec<Vec<String>> {
    rows.iter().map(|r| r.iter().map(|c| c.to_string()).collect()).collect()
}

#[test]
fn end_to_end_example() {
    let input = b"key,en,fr\nhello,Hello,Bonjour\n\"say \\\"hi\\\"\",Hi,Salut\n";
    let c = convert(input, "").unwrap();
    assert_eq!(c.template.name, "template.pot");
    assert_eq!(
        c.template.contents,
        format!(
            "{}msgid \"hello\"\nmsgstr \"\"\n\nmsgid \"say \\\"hi\\\"\"\nmsgstr \"\"\n\n",
            TEMPLATE_PREAMBLE
        )
    );
    assert_eq!(c.languages.len(), 2);
    assert_eq!(c.languages[0].name, "en.po");
    assert_eq!(
        c.languages[0].contents,
        format!(
            "{}msgid \"hello\"\nmsgstr \"Hello\"\n\nmsgid \"say \\\"hi\\\"\"\nmsgstr \"Hi\"\n\n",
            language_head("en")
        )
    );
    assert_eq!(c.languages[1].name, "fr.po");
    assert_eq!(
        c.languages[1].contents,
        format!(
            "{}msgid \"hello\"\nmsgstr \"Bonjour\"\n\nmsgid \"say \\\"hi\\\"\"\nmsgstr \"Salut\"\n\n",
            language_head("fr")
        )
    );
}

#[test]
fn one_file_per_language_column_named_after_header() {
    let c = convert(b"id,de,pt-BR,zh_Hans\na,1,2,3\n", "").unwrap();
    let names: Vec<&str> = c.languages.iter().map(|f| f.name.as_str()).collect();
    assert_eq!(names, vec!["de.po", "pt-BR.po", "zh_Hans.po"]);
}

#[test]
fn row_with_empty_identifier_is_skipped() {
    let c = convert(b"key,en\none,One\n,Two\nthree,Three\n", "").unwrap();
    assert_eq!(
        c.template.contents,
        format!(
            "{}msgid \"one\"\nmsgstr \"\"\n\nmsgid \"three\"\nmsgstr \"\"\n\n",
            TEMPLATE_PREAMBLE
        )
    );
    assert_eq!(
        c.languages[0].contents,
        format!(
            "{}msgid \"one\"\nmsgstr \"One\"\n\nmsgid \"three\"\nmsgstr \"Three\"\n\n",
            language_head("en")
        )
    );
    assert!(!c.languages[0].contents.contains("Two"));
}

#[test]
fn header_without_languages_gives_template_only() {
    let c = convert(b"key\nhello\nworld\n", "").unwrap();
    assert!(c.languages.is_empty());
    assert_eq!(
        c.template.contents,
        format!(
            "{}msgid \"hello\"\nmsgstr \"\"\n\nmsgid \"world\"\nmsgstr \"\"\n\n",
            TEMPLATE_PREAMBLE
        )
    );
}

#[test]
fn empty_input_gives_bare_template() {
    let c = convert(b"", "").unwrap();
    assert!(c.languages.is_empty());
    assert_eq!(c.template.contents, TEMPLATE_PREAMBLE);
}

#[test]
fn language_without_translations_gets_preamble_only() {
    let c = convert_table(&table(&[&["key", "en", "fr"], &["", "x", "y"]]), "").unwrap();
    assert_eq!(c.languages.len(), 2);
    assert_eq!(c.languages[1].contents, language_head("fr"));
    assert_eq!(c.template.contents, TEMPLATE_PREAMBLE);
}

#[test]
fn converting_twice_gives_identical_files() {
    let input = b"key,en,fr\nhello,Hello,Bonjour\nbye,\"Good \"\"bye\"\"\",Salut\n";
    let a = convert(input, "demo").unwrap();
    let b = convert(input, "demo").unwrap();
    assert_eq!(a.template.name, b.template.name);
    assert_eq!(a.template.contents, b.template.contents);
    assert_eq!(a.languages.len(), b.languages.len());
    for (x, y) in a.languages.iter().zip(b.languages.iter()) {
        assert_eq!(x.name, y.name);
        assert_eq!(x.contents, y.contents);
    }
}

#[test]
fn escaping_only_touches_quotes() {
    assert_eq!(escape_quotes("say \"hi\""), "say \\\"hi\\\"");
    assert_eq!(escape_quotes("plain text, \\n é"), "plain text, \\n é");
    assert_eq!(escape_quotes(""), "");
    assert_eq!(escape_quotes("\"\""), "\\\"\\\"");
}

#[test]
fn message_block_escapes_both_parts() {
    assert_eq!(
        message_block("a \"b\"", "c \"d\""),
        "msgid \"a \\\"b\\\"\"\nmsgstr \"c \\\"d\\\"\"\n\n"
    );
    assert_eq!(message_block("k", ""), "msgid \"k\"\nmsgstr \"\"\n\n");
}

#[test]
fn preambles_name_project_and_language() {
    assert_eq!(
        template_preamble("Demo 1.0"),
        TEMPLATE_PREAMBLE.replace("Project-Id-Version: ", "Project-Id-Version: Demo 1.0")
    );
    assert_eq!(
        language_preamble("Demo", "fr"),
        language_head("fr").replace("Project-Id-Version: ", "Project-Id-Version: Demo")
    );
}

#[test]
fn project_name_reaches_every_file() {
    let c = convert(b"key,en\nhi,Hi\n", "Shop").unwrap();
    assert!(c.template.contents.contains("\"Project-Id-Version: Shop\\n\"\n"));
    assert!(c.languages[0].contents.contains("\"Project-Id-Version: Shop\\n\"\n"));
    assert!(c.languages[0].contents.contains("\"Language: en\\n\"\n"));
}

#[test]
fn short_row_omits_missing_languages() {
    let c = convert(b"key,en,fr\nhello,Hello\nbye,,Salut\n", "").unwrap();
    assert_eq!(
        c.template.contents,
        format!(
            "{}msgid \"hello\"\nmsgstr \"\"\n\nmsgid \"bye\"\nmsgstr \"\"\n\n",
            TEMPLATE_PREAMBLE
        )
    );
    assert_eq!(
        c.languages[0].contents,
        format!(
            "{}msgid \"hello\"\nmsgstr \"Hello\"\n\nmsgid \"bye\"\nmsgstr \"\"\n\n",
            language_head("en")
        )
    );
    assert_eq!(
        c.languages[1].contents,
        format!("{}msgid \"bye\"\nmsgstr \"Salut\"\n\n", language_head("fr"))
    );
}

#[test]
fn long_row_is_a_format_error() {
    let r = convert(b"key,en\nok,Fine\nx,1,2\n", "");
    assert!(matches!(r, Err(ConvertError::Format { row: 2 })));
}

#[test]
fn long_row_without_identifier_is_skipped() {
    let c = convert(b"key,en\n,1,2\nok,Fine\n", "").unwrap();
    assert_eq!(
        c.languages[0].contents,
        format!("{}msgid \"ok\"\nmsgstr \"Fine\"\n\n", language_head("en"))
    );
}

#[test]
fn invalid_utf8_is_an_input_error() {
    let r = convert(b"key,en\n\xff\xfe,x\n", "");
    assert!(matches!(r, Err(ConvertError::Input(_))));
}
