use vstd::prelude::*;
use crate::error::ApiError;
use crate::models::ExportPdfRequest;

verus! {

/// The answer to a request for a PDF export: the request, and the word that
/// nothing was exported.
#[derive(Debug)]
pub struct ExportPdfResponse {
    pub message: String,
    pub document_id: i64,
    pub template: String,
}

/// What the export says in place of a document.
pub open spec fn export_message() -> Seq<char> {
    "PDF export not yet implemented"@
}

/// Answers a request for a PDF export. No document is made: the answer
/// names the document and the template that were asked for and says that
/// the export is not implemented. It never fails.
pub fn export_pdf(payload: &ExportPdfRequest) -> (result: Result<ExportPdfResponse, ApiError>)
    ensures
        result is Ok,
        result->Ok_0.message@ == export_message(),
        result->Ok_0.document_id == payload.document_id,
        result->Ok_0.template@ == payload.template@,
{
    Ok(
        ExportPdfResponse {
            message: String::from_str("PDF export not yet implemented"),
            document_id: payload.document_id,
            template: payload.template.clone(),
        },
    )
}

} // verus!
