//! Uploaded documents and their processing state.

use vstd::prelude::*;
use vstd::string::*;
use crate::text::same_text;
use crate::clause::fresh_id;

verus! {

/// Relies on `chrono::Utc::now`: the current time in seconds since the Unix
/// epoch, of which nothing is promised.
#[verifier::external_body]
pub(crate) fn now_seconds() -> (r: i64) {
    chrono::Utc::now().timestamp()
}

/// What a client sends to upload a document.
#[derive(Debug)]
pub struct DocumentUploadRequest {
    pub filename: String,
    pub content_type: String,
    pub file_data: String,
    pub document_type: String,
    pub language: Option<String>,
    pub client_id: Option<String>,
    pub case_reference: Option<String>,
}

/// A document and where it stands in processing; times are seconds since
/// the Unix epoch.
#[derive(Debug)]
pub struct Document {
    pub id: u128,
    pub filename: String,
    pub content_type: String,
    pub file_size: i64,
    pub original_text: Option<String>,
    pub extracted_text: Option<String>,
    pub document_type: String,
    pub language: String,
    pub client_id: Option<String>,
    pub case_reference: Option<String>,
    pub processing_status: String,
    pub error_message: Option<String>,
    pub created_at: i64,
    pub updated_at: i64,
}

impl Document {
    /// A freshly uploaded document: no text yet, status "uploaded", language
    /// as requested or "unknown".
    pub fn new(request: DocumentUploadRequest) -> (r: Self)
        ensures
            r.filename == request.filename,
            r.content_type == request.content_type,
            r.document_type == request.document_type,
            r.language@ == match request.language {
                Some(l) => l@,
                None => "unknown"@,
            },
            r.client_id == request.client_id,
            r.case_reference == request.case_reference,
            r.processing_status@ == "uploaded"@,
            r.file_size == 0,
            r.original_text is None,
            r.extracted_text is None,
            r.error_message is None,
            r.created_at == r.updated_at,
    {
        let now = now_seconds();
        let language = match request.language {
            Some(l) => l,
            None => String::from_str("unknown"),
        };
        Document {
            id: fresh_id(),
            filename: request.filename,
            content_type: request.content_type,
            file_size: 0,
            original_text: None,
            extracted_text: None,
            document_type: request.document_type,
            language,
            client_id: request.client_id,
            case_reference: request.case_reference,
            processing_status: String::from_str("uploaded"),
            error_message: None,
            created_at: now,
            updated_at: now,
        }
    }

    /// Whether the document is a mortgage contract or a loan agreement.
    pub fn is_mortgage_contract(&self) -> (r: bool)
        ensures
            r == (self.document_type@ == "mortgage_contract"@ || self.document_type@
                == "loan_agreement"@),
    {
        same_text(self.document_type.as_str(), "mortgage_contract") || same_text(
            self.document_type.as_str(),
            "loan_agreement",
        )
    }

    /// Whether text can be recognised in the document's images.
    pub fn supports_ocr(&self) -> (r: bool)
        ensures
            r == (self.content_type@ == "application/pdf"@ || self.content_type@ == "image/jpeg"@
                || self.content_type@ == "image/png"@),
    {
        same_text(self.content_type.as_str(), "application/pdf") || same_text(
            self.content_type.as_str(),
            "image/jpeg",
        ) || same_text(self.content_type.as_str(), "image/png")
    }
}

} // verus!
