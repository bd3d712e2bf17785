//! How a document is printed or saved, step by step.

use crate::label::{plain_message, Label};
use crate::portal::PortalResponse;
use crate::print_dialog::printers::{is_pdf_printer_by_id, writes_file};
use crate::text::{
    chars_of, concat, eq_ignore_ascii_case, str_eq_ignore_ascii_case, string_between, trim, trimmed,
};
use vstd::prelude::*;

verus! {

/// A title without slashes.
pub open spec fn without_slashes(title: Seq<char>) -> Seq<char> {
    title.map_values(
        |c: char|
            if c == '/' {
                '_'
            } else {
                c
            },
    )
}

/// Whether a name ends in the extension of PDF files, in upper or lower case.
pub open spec fn has_pdf_extension(name: Seq<char>) -> bool {
    name.len() >= 4 && eq_ignore_ascii_case(name.skip(name.len() - 4), ".pdf"@)
}

/// The name that is proposed for the file of a document with a title.
pub open spec fn pdf_filename(title: Seq<char>) -> Seq<char> {
    let name = without_slashes(title);
    if trimmed(name).len() == 0 {
        "document.pdf"@
    } else if has_pdf_extension(name) {
        name
    } else {
        name + ".pdf"@
    }
}

/// A title without slashes.
fn replace_slashes(title: &str) -> (r: String)
    ensures
        r@ == without_slashes(title@),
{
    let chars = chars_of(title);
    let mut r = String::new();
    let ghost all = without_slashes(title@);
    let mut i: usize = 0;
    proof {
        assert(r@ =~= all.take(0));
    }
    while i < chars.len()
        invariant
            i <= chars@.len(),
            chars@ == title@,
            all == without_slashes(title@),
            r@ == all.take(i as int),
        decreases chars@.len() - i,
    {
        let c: char = if chars[i] == '/' {
            '_'
        } else {
            chars[i]
        };
        proof {
            assert(all[i as int] == c);
            assert(all.take(i + 1) =~= all.take(i as int).push(c));
        }
        r.push(c);
        i = i + 1;
    }
    proof {
        assert(all.take(all.len() as int) =~= all);
    }
    r
}

/// Whether a name ends in the extension of PDF files.
fn ends_in_pdf(name: &str) -> (r: bool)
    ensures
        r == has_pdf_extension(name@),
{
    let chars = chars_of(name);
    let n: usize = chars.len();
    if n < 4 {
        return false;
    }
    let tail = string_between(&chars, n - 4, n);
    proof {
        assert(tail@ =~= name@.skip(n - 4));
    }
    str_eq_ignore_ascii_case(tail.as_str(), ".pdf")
}

/// The name that is proposed for the file of a document with a title.
pub fn sanitize_pdf_filename(title: &str) -> (r: String)
    ensures
        r@ == pdf_filename(title@),
{
    let name = replace_slashes(title);
    if trim(name.as_str()).as_str().is_empty() {
        "document.pdf".to_owned()
    } else if ends_in_pdf(name.as_str()) {
        name
    } else {
        concat(name.as_str(), ".pdf")
    }
}

/// The proposed name is the name of a file in a directory, whatever the title: it holds no slash and
/// ends in the extension of PDF files.
pub proof fn law_pdf_filename_is_plain(title: Seq<char>)
    ensures
        has_pdf_extension(pdf_filename(title)),
        !pdf_filename(title).contains('/'),
{
    reveal_strlit("document.pdf");
    reveal_strlit(".pdf");
    let name = without_slashes(title);
    let r = pdf_filename(title);
    assert forall|i: int| 0 <= i < name.len() implies name[i] != '/' by {}
    if trimmed(name).len() == 0 {
        assert(r.skip(8) =~= ".pdf"@);
        assert forall|i: int| 0 <= i < r.len() implies r[i] != '/' by {}
    } else if !has_pdf_extension(name) {
        assert(r.skip(r.len() - 4) =~= ".pdf"@);
        assert forall|i: int| 0 <= i < r.len() implies r[i] != '/' by {
            if i >= name.len() {
                assert(r[i] == ".pdf"@[i - name.len()]);
            }
        }
    }
    if r.contains('/') {
        let i = choose|i: int| 0 <= i < r.len() && r[i] == '/';
        assert(r[i] != '/');
    }
}

/// How the saving of a file ended.
#[derive(Debug, Clone, Copy, PartialEq, Eq, Structural)]
pub enum SavePdfResult {
    Saved,
    Cancelled,
    Failed,
}

/// What the file chooser is asked for.
#[derive(Debug, PartialEq, Eq)]
pub struct SaveRequest {
    pub title: Label,
    pub accept_label: Label,
    pub modal: bool,
    pub current_name: String,
    pub filter_name: Label,
    pub mime_type: &'static str,
    pub glob: &'static str,
}

/// What the file chooser is asked for to save a document with a title.
pub fn save_request(title: &str) -> (r: SaveRequest)
    ensures
        r.title@ == plain_message("save-pdf-document"@),
        r.accept_label@ == plain_message("save"@),
        r.modal,
        r.current_name@ == pdf_filename(title@),
        r.filter_name@ == plain_message("pdf-document"@),
        r.mime_type@ == "application/pdf"@,
        r.glob@ == "*.pdf"@,
{
    SaveRequest {
        title: Label::message("save-pdf-document"),
        accept_label: Label::message("save"),
        modal: true,
        current_name: sanitize_pdf_filename(title),
        filter_name: Label::message("pdf-document"),
        mime_type: "application/pdf",
        glob: "*.pdf",
    }
}

/// What the file chooser answered.
#[derive(Debug, PartialEq, Eq)]
pub enum ChooserReply {
    /// It could not be asked, or its answer was an error.
    Failed,
    Cancelled,
    /// The addresses of files; the first one counts.
    Files(Vec<String>),
}

/// The path of the file at an address, if it has one on this machine.
pub uninterp spec fn file_path_of(url: Seq<char>) -> Option<Seq<u8>>;

/// The path of the file at an address, as `url::Url::parse` reads the address and
/// `url::Url::to_file_path` makes a path of it. It depends on the address alone.
#[verifier::external_body]
fn file_path(url: &str) -> (r: Option<Vec<u8>>)
    ensures
        match r {
            Some(path) => file_path_of(url@) == Some(path@),
            None => file_path_of(url@) is None,
        },
{
    let url = url::Url::parse(url).ok()?;
    let path = url.to_file_path().ok()?;
    Some(path.into_os_string().into_encoded_bytes())
}

/// How a document was copied.
#[derive(Debug, Clone, Copy, PartialEq, Eq, Structural)]
pub enum CopyReply {
    /// The document could not be opened once more.
    NotOpened,
    Failed,
    Copied,
}

/// What follows after the file chooser answered.
#[derive(Debug, PartialEq, Eq)]
pub enum SaveStep {
    /// Copy the document to the file at this path.
    Copy(Vec<u8>),
    Done(SavePdfResult),
}

/// What follows when the first file has this path: without one the saving has failed.
pub fn copy_to(path: Option<Vec<u8>>) -> (r: SaveStep)
    ensures
        r == match path {
            Some(path) => SaveStep::Copy(path),
            None => SaveStep::Done(SavePdfResult::Failed),
        },
{
    match path {
        Some(path) => SaveStep::Copy(path),
        None => SaveStep::Done(SavePdfResult::Failed),
    }
}

/// What follows after the file chooser answered.
pub fn after_choice(reply: &ChooserReply) -> (r: SaveStep)
    ensures
        match reply {
            ChooserReply::Files(urls) => if urls@.len() == 0 {
                r == SaveStep::Done(SavePdfResult::Cancelled)
            } else {
                match file_path_of(urls@[0]@) {
                    Some(path) => r matches SaveStep::Copy(to) && to@ == path,
                    None => r == SaveStep::Done(SavePdfResult::Failed),
                }
            },
            ChooserReply::Cancelled => r == SaveStep::Done(SavePdfResult::Cancelled),
            ChooserReply::Failed => r == SaveStep::Done(SavePdfResult::Failed),
        },
{
    match reply {
        ChooserReply::Files(urls) => if urls.len() == 0 {
            SaveStep::Done(SavePdfResult::Cancelled)
        } else {
            copy_to(file_path(urls[0].as_str()))
        },
        ChooserReply::Cancelled => SaveStep::Done(SavePdfResult::Cancelled),
        ChooserReply::Failed => SaveStep::Done(SavePdfResult::Failed),
    }
}

/// How the saving ended after the document was copied.
pub fn after_pdf_copy(reply: CopyReply) -> (r: SavePdfResult)
    ensures
        r == if reply == CopyReply::Copied {
            SavePdfResult::Saved
        } else {
            SavePdfResult::Failed
        },
{
    match reply {
        CopyReply::Copied => SavePdfResult::Saved,
        CopyReply::Failed => SavePdfResult::Failed,
        CopyReply::NotOpened => SavePdfResult::Failed,
    }
}

/// How a document gets to a printer.
#[derive(Debug, Clone, Copy, PartialEq, Eq, Structural)]
pub enum PrintPlan {
    /// Save it to a file.
    SavePdf,
    /// Submit a job to the print service and copy the document there.
    Submit,
}

/// How a document gets to a printer.
pub fn print_plan(printer_id: &str, backend: &str) -> (r: PrintPlan)
    ensures
        r == if writes_file(printer_id@, backend@) {
            PrintPlan::SavePdf
        } else {
            PrintPlan::Submit
        },
{
    if is_pdf_printer_by_id(printer_id, backend) {
        PrintPlan::SavePdf
    } else {
        PrintPlan::Submit
    }
}

/// The answer to an application whose document was saved.
pub fn pdf_response(result: SavePdfResult) -> (r: PortalResponse<()>)
    ensures
        r == match result {
            SavePdfResult::Saved => PortalResponse::Success(()),
            SavePdfResult::Cancelled => PortalResponse::Cancelled,
            SavePdfResult::Failed => PortalResponse::Other,
        },
{
    match result {
        SavePdfResult::Saved => PortalResponse::Success(()),
        SavePdfResult::Cancelled => PortalResponse::Cancelled,
        SavePdfResult::Failed => PortalResponse::Other,
    }
}

/// How far a job got: the print service was not there, it refused the job, or the document was
/// copied in some way.
#[derive(Debug, Clone, Copy, PartialEq, Eq, Structural)]
pub enum JobReply {
    NoService,
    Refused,
    Copied(CopyReply),
}

/// The answer to an application whose document was submitted. It succeeds only where the whole
/// document got to the service.
pub fn job_response(reply: JobReply) -> (r: PortalResponse<()>)
    ensures
        r == if reply == JobReply::Copied(CopyReply::Copied) {
            PortalResponse::Success(())
        } else {
            PortalResponse::Other
        },
{
    match reply {
        JobReply::Copied(CopyReply::Copied) => PortalResponse::Success(()),
        _ => PortalResponse::Other,
    }
}

/// A title without slashes that ends as a PDF file does is the name of the file; to another title that is
/// not blank the ending is added; and every other letter of a title stays where it is.
pub proof fn law_file_is_named_by_the_title(title: Seq<char>, i: int)
    requires
        trimmed(without_slashes(title)).len() > 0,
    ensures
        !title.contains('/') && has_pdf_extension(title) ==> pdf_filename(title) == title,
        !title.contains('/') && !has_pdf_extension(title) ==> pdf_filename(title) == title + ".pdf"@,
        pdf_filename(title).len() == title.len() || pdf_filename(title).len() == title.len() + 4,
        0 <= i < title.len() ==> pdf_filename(title)[i] == (if title[i] == '/' {
            '_'
        } else {
            title[i]
        }),
{
    reveal_strlit(".pdf");
    if !title.contains('/') {
        assert(without_slashes(title) =~= title) by {
            assert forall|k: int| 0 <= k < title.len() implies without_slashes(title)[k] == title[k] by {
                assert(title.contains(title[k]));
            }
        }
    }
}

} // verus!
