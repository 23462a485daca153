//! The session client: where to send the upload, how to read the server's
//! answer, and where to open the message connection.

use vstd::prelude::*;
use vstd::utf8::encode_utf8;
use crate::config::Server;
use crate::error::ClientError;
use crate::json::{parse_session_response, session_fields};
use crate::text::{
    chars_of, contains, contains_exec, decimal, decimal_string, slice_chars, starts_with,
    starts_with_exec, string_of,
};

verus! {

/// The HTTP base of a server address: a bare host is reached over HTTPS.
pub open spec fn http_base(addr: Seq<char>) -> Seq<char> {
    if starts_with(addr, "http://"@) || starts_with(addr, "https://"@) {
        addr
    } else {
        "https://"@ + addr
    }
}

/// Where a session is created.
pub open spec fn session_url(addr: Seq<char>) -> Seq<char> {
    http_base(addr) + "/api/session"@
}

/// The connection base of a server address: the scheme keeps its level of
/// security, and a bare host is reached over a secure connection.
pub open spec fn ws_base(addr: Seq<char>) -> Seq<char> {
    if starts_with(addr, "https://"@) {
        "wss://"@ + addr.subrange("https://"@.len() as int, addr.len() as int)
    } else if starts_with(addr, "http://"@) {
        "ws://"@ + addr.subrange("http://"@.len() as int, addr.len() as int)
    } else {
        "wss://"@ + addr
    }
}

/// Where the message connection of session `id` is opened.
pub open spec fn ws_url(addr: Seq<char>, id: Seq<char>) -> Seq<char> {
    ws_base(addr) + "/api/session/"@ + id
}

/// The boundary that separates the parts of an upload, made from a number.
pub open spec fn boundary_text(n: u64) -> Seq<char> {
    "----WebKitFormBoundary"@ + decimal(n as nat)
}

/// The text before the file's bytes in an upload.
pub open spec fn multipart_head(boundary: Seq<char>, file_name: Seq<char>) -> Seq<char> {
    "--"@ + boundary + "\r\n"@
        + "Content-Disposition: form-data; name=\"document\"; filename=\""@ + file_name
        + "\"\r\n"@ + "Content-Type: application/octet-stream\r\n\r\n"@
}

/// The text after the file's bytes in an upload.
pub open spec fn multipart_tail(boundary: Seq<char>) -> Seq<char> {
    "\r\n--"@ + boundary + "--\r\n"@
}

/// The body of an upload: one part named `document` that holds `content`.
pub open spec fn multipart(boundary: Seq<char>, file_name: Seq<char>, content: Seq<u8>) -> Seq<u8> {
    encode_utf8(multipart_head(boundary, file_name)) + content + encode_utf8(
        multipart_tail(boundary),
    )
}

/// The session client: the chosen server, the file being edited, and the
/// session once it has been negotiated.
pub struct Client {
    pub server: Server,
    pub file_path: String,
    pub session_id: Option<String>,
    pub edit_url: Option<String>,
}

impl Client {
    /// The negotiated session's id and edit URL, if any.
    pub open spec fn session(&self) -> Option<(Seq<char>, Seq<char>)> {
        match (self.session_id, self.edit_url) {
            (Some(id), Some(url)) => Some((id@, url@)),
            _ => None,
        }
    }

    /// A client for `server` and the file at `file_path`, with no session yet.
    pub fn new(server: Server, file_path: String) -> (r: Result<Client, ClientError>)
        ensures
            r matches Ok(c) && c.server == server && c.file_path == file_path && c.session_id is None
                && c.edit_url is None,
    {
        Ok(Client { server, file_path, session_id: None, edit_url: None })
    }

    /// Where the upload that creates the session is sent.
    pub fn session_url(&self) -> (r: String)
        ensures
            r@ == session_url(self.server.addr@),
    {
        let addr = chars_of(self.server.addr.as_str());
        let http = chars_of("http://");
        let https = chars_of("https://");
        let mut out = String::new();
        if !(starts_with_exec(&addr, &http) || starts_with_exec(&addr, &https)) {
            out.append("https://");
        }
        out.append(self.server.addr.as_str());
        out.append("/api/session");
        out
    }

    /// Takes in the server's answer to the session request: its status, its
    /// content type, and its body. On success the session is recorded; on
    /// failure the client is left as it was.
    pub fn accept_session_response(&mut self, status: u16, content_type: &str, body: &str) -> (r:
        Result<(), ClientError>)
        ensures
            final(self).server == old(self).server,
            final(self).file_path == old(self).file_path,
            status == 401 ==> r == Err::<(), ClientError>(ClientError::Unauthorized),
            status != 401 && (status < 200 || status >= 300) ==> r == Err::<(), ClientError>(
                ClientError::BadStatus(status),
            ),
            200 <= status < 300 && !contains(content_type@, "application/json"@) ==> (r matches Err(
                ClientError::UnexpectedContentType(t),
            ) && t@ == content_type@),
            200 <= status < 300 && contains(content_type@, "application/json"@) ==> match session_fields(
                body@,
            ) {
                Some(f) => r is Ok && final(self).session() == Some(f),
                None => r == Err::<(), ClientError>(ClientError::InvalidSessionResponse),
            },
            r is Err ==> final(self).session_id == old(self).session_id && final(self).edit_url == old(
                self,
            ).edit_url,
    {
        if status == 401 {
            return Err(ClientError::Unauthorized);
        }
        if status < 200 || status >= 300 {
            return Err(ClientError::BadStatus(status));
        }
        let ct = chars_of(content_type);
        let json = chars_of("application/json");
        if !contains_exec(&ct, &json) {
            return Err(ClientError::UnexpectedContentType(content_type.to_string()));
        }
        match parse_session_response(body) {
            Ok(resp) => {
                self.session_id = Some(resp.sessionid);
                self.edit_url = Some(resp.editurl);
                Ok(())
            },
            Err(e) => Err(e),
        }
    }

    /// The edit URL of the session, or an empty string before one exists.
    pub fn get_edit_url(&self) -> (r: String)
        ensures
            r@ == match self.edit_url {
                Some(u) => u@,
                None => Seq::empty(),
            },
    {
        match &self.edit_url {
            Some(u) => u.clone(),
            None => String::new(),
        }
    }

    /// Where the message connection of the negotiated session is opened.
    pub fn ws_url(&self) -> (r: Result<String, ClientError>)
        ensures
            match self.session_id {
                Some(id) => r matches Ok(u) && u@ == ws_url(self.server.addr@, id@),
                None => r == Err::<String, ClientError>(ClientError::NoSession),
            },
    {
        let id = match &self.session_id {
            Some(id) => id,
            None => return Err(ClientError::NoSession),
        };
        let addr = chars_of(self.server.addr.as_str());
        let http = chars_of("http://");
        let https = chars_of("https://");
        let mut out = String::new();
        if starts_with_exec(&addr, &https) {
            out.append("wss://");
            let rest = string_of(&slice_chars(&addr, https.len(), addr.len()));
            out.append(rest.as_str());
        } else if starts_with_exec(&addr, &http) {
            out.append("ws://");
            let rest = string_of(&slice_chars(&addr, http.len(), addr.len()));
            out.append(rest.as_str());
        } else {
            out.append("wss://");
            out.append(self.server.addr.as_str());
        }
        out.append("/api/session/");
        out.append(id.as_str());
        Ok(out)
    }
}

/// The boundary that separates the parts of an upload, made from `n`.
pub fn multipart_boundary(n: u64) -> (r: String)
    ensures
        r@ == boundary_text(n),
{
    let mut out = String::new();
    out.append("----WebKitFormBoundary");
    let d = decimal_string(n);
    out.append(d.as_str());
    out
}

/// The value of the `Content-Type` header of an upload.
pub fn multipart_content_type(boundary: &str) -> (r: String)
    ensures
        r@ == "multipart/form-data; boundary="@ + boundary@,
{
    let mut out = String::new();
    out.append("multipart/form-data; boundary=");
    out.append(boundary);
    out
}

/// The body of an upload: one part named `document`, typed as raw bytes, that
/// holds the file's content.
pub fn multipart_body(boundary: &str, file_name: &str, content: &[u8]) -> (r: Vec<u8>)
    ensures
        r@ == multipart(boundary@, file_name@, content@),
{
    let mut head = String::new();
    head.append("--");
    head.append(boundary);
    head.append("\r\n");
    head.append("Content-Disposition: form-data; name=\"document\"; filename=\"");
    head.append(file_name);
    head.append("\"\r\n");
    head.append("Content-Type: application/octet-stream\r\n\r\n");
    let mut tail = String::new();
    tail.append("\r\n--");
    tail.append(boundary);
    tail.append("--\r\n");
    assert(head@ =~= multipart_head(boundary@, file_name@));
    assert(tail@ =~= multipart_tail(boundary@));
    let mut body: Vec<u8> = Vec::new();
    push_bytes(&mut body, head.as_str().as_bytes());
    push_bytes(&mut body, content);
    push_bytes(&mut body, tail.as_str().as_bytes());
    body
}

/// Appends `bytes` to `out`.
fn push_bytes(out: &mut Vec<u8>, bytes: &[u8])
    ensures
        final(out)@ == old(out)@ + bytes@,
{
    let mut i: usize = 0;
    while i < bytes.len()
        invariant
            i <= bytes@.len(),
            out@ == old(out)@ + bytes@.subrange(0, i as int),
        decreases bytes@.len() - i,
    {
        out.push(bytes[i]);
        assert(bytes@.subrange(0, i + 1) =~= bytes@.subrange(0, i as int).push(bytes@[i as int]));
        i += 1;
    }
    assert(bytes@.subrange(0, i as int) =~= bytes@);
}

} // verus!
