//! Requests to the daemon that holds the decrypted databases.

use vstd::prelude::*;

verus! {

/// A request to the daemon.
#[derive(Debug)]
pub enum Request {
    /// Write the content of an attachment to a file.
    Extract { attachment_id: String, output: String, overwrite: bool },
}

/// A request of the user, and whether the answer is to be printed as JSON.
#[derive(Debug)]
pub struct ExtractCommand {
    pub request: Request,
    pub json: bool,
}

/// Turns a user's wish for an attachment into a request.
pub fn cmd_extract(attachment_id: String, output: String, overwrite: bool, json: bool) -> (command:
    ExtractCommand)
    ensures
        command.request == (Request::Extract { attachment_id, output, overwrite }),
        command.json == json,
{
    ExtractCommand { request: Request::Extract { attachment_id, output, overwrite }, json }
}

/// Asks for a voice message in a file of its own, which may be there already.
pub fn extract_voice(attachment_id: &str, raw_path: String) -> (request: Request)
    ensures
        request matches Request::Extract { attachment_id: id, output, overwrite } && id@
            == attachment_id@ && output == raw_path && overwrite,
{
    Request::Extract { attachment_id: attachment_id.to_owned(), output: raw_path, overwrite: true }
}

} // verus!
