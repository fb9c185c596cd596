//! The text of gettext catalogs: message blocks and file preambles.

use vstd::prelude::*;

use crate::escape::{escape_quotes, escaped};

verus! {

/// One message: the escaped identifier, the escaped translation, and a blank
/// line after it.
pub open spec fn block(id: Seq<char>, translation: Seq<char>) -> Seq<char> {
    "msgid \""@ + escaped(id) + "\"\nmsgstr \""@ + escaped(translation) + "\"\n\n"@
}

/// The metadata entry that opens the template.
pub open spec fn template_preamble_of(project: Seq<char>) -> Seq<char> {
    "msgid \"\"\nmsgstr \"\"\n"@ + "\"Project-Id-Version: "@ + project + "\\n\"\n"@
        + "\"MIME-Version: 1.0\\n\"\n"@ + "\"Content-Type: text/plain; charset=UTF-8\\n\"\n"@
        + "\"Content-Transfer-Encoding: 8bit\\n\"\n\n"@
}

/// The metadata entry that opens the catalog of one language.
pub open spec fn language_preamble_of(project: Seq<char>, language: Seq<char>) -> Seq<char> {
    "msgid \"\"\nmsgstr \"\"\n"@ + "\"Project-Id-Version: "@ + project + "\\n\"\n"@
        + "\"Language-Team: \\n\"\n"@ + "\"Language: "@ + language + "\\n\"\n"@
        + "\"Last-Translator: \\n\"\n"@ + "\"PO-Revision-Date: \\n\"\n"@
        + "\"MIME-Version: 1.0\\n\"\n"@ + "\"Content-Type: text/plain; charset=UTF-8\\n\"\n"@
        + "\"Content-Transfer-Encoding: 8bit\\n\"\n\n"@
}

/// Formats one message block; the template passes an empty translation.
pub fn message_block(id: &str, translation: &str) -> (r: String)
    ensures
        r@ == block(id@, translation@),
{
    let mut r = String::from_str("msgid \"");
    r.append(escape_quotes(id).as_str());
    r.append("\"\nmsgstr \"");
    r.append(escape_quotes(translation).as_str());
    r.append("\"\n\n");
    r
}

/// The preamble of the template, naming the project.
pub fn template_preamble(project: &str) -> (r: String)
    ensures
        r@ == template_preamble_of(project@),
{
    let mut r = String::from_str("msgid \"\"\nmsgstr \"\"\n");
    r.append("\"Project-Id-Version: ");
    r.append(project);
    r.append("\\n\"\n");
    r.append("\"MIME-Version: 1.0\\n\"\n");
    r.append("\"Content-Type: text/plain; charset=UTF-8\\n\"\n");
    r.append("\"Content-Transfer-Encoding: 8bit\\n\"\n\n");
    r
}

/// The preamble of one language's catalog, naming the project and the
/// language.
pub fn language_preamble(project: &str, language: &str) -> (r: String)
    ensures
        r@ == language_preamble_of(project@, language@),
{
    let mut r = String::from_str("msgid \"\"\nmsgstr \"\"\n");
    r.append("\"Project-Id-Version: ");
    r.append(project);
    r.append("\\n\"\n");
    r.append("\"Language-Team: \\n\"\n");
    r.append("\"Language: ");
    r.append(language);
    r.append("\\n\"\n");
    r.append("\"Last-Translator: \\n\"\n");
    r.append("\"PO-Revision-Date: \\n\"\n");
    r.append("\"MIME-Version: 1.0\\n\"\n");
    r.append("\"Content-Type: text/plain; charset=UTF-8\\n\"\n");
    r.append("\"Content-Transfer-Encoding: 8bit\\n\"\n\n");
    r
}

} // verus!
