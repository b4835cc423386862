//! The request-handling pipeline: allowlist, method policy, then the
//! search-and-replace rewrite. Pure decision logic; forwarding and audit
//! delivery are done by the caller with the decision this returns, and the
//! upstream's reply, whatever it is, comes back through `finish_forward`,
//! so that every request yields exactly one audit record.

use vstd::prelude::*;
use crate::proto::id::CaseId;
use crate::proto::error::{QwanCode, QwanError, QwanResult, code_of, is_error, status_of};
use crate::proxy::allowlist::{Allowlist, allowed};
use crate::vault::rewriter::{Rewriter, rewritten, scan_halts};
use crate::text::{owned, push_str};

verus! {

/// An incoming proxied request, decomposed into the parts the rewriter scans.
#[derive(Debug, Clone)]
pub struct ProxyRequest {
    pub case_id: CaseId,
    pub host: String,
    pub method: String,
    pub path: String,
    pub headers: Vec<u8>,
    pub url: Vec<u8>,
    pub body: Vec<u8>,
}

/// The pipeline's decision for a request.
#[derive(Debug, Clone)]
pub enum ProxyDecision {
    /// Allowed and (possibly) rewritten: forward these bytes. `matched` is
    /// empty for a passthrough.
    Allow { headers: Vec<u8>, url: Vec<u8>, body: Vec<u8>, matched: Vec<usize> },
    /// Host not allowlisted, or method not allowed.
    Block { status: u16, reason: String },
}

/// One audit record: which dummies matched (never the secret itself).
#[derive(Debug, Clone)]
pub struct AuditRecord {
    pub case_id: CaseId,
    pub host: String,
    pub method: String,
    pub path: String,
    pub status: u16,
    pub bytes_up: u64,
    pub bytes_down: u64,
    /// Which rewrite-table indices matched.
    pub matched_dummies: Vec<usize>,
}

/// The reason text of a block.
pub open spec fn block_reason(method: Seq<char>, host: Seq<char>) -> Seq<char> {
    "blocked host/method: "@ + method + " "@ + host
}

/// Run the pure pipeline: block with status 403 when the host/method pair
/// is not allowed, otherwise rewrite headers, URL and body.
pub fn run_pipeline(allowlist: &Allowlist, rewriter: &Rewriter<'_>, req: &ProxyRequest) -> (r:
    ProxyDecision)
    requires
        allowed(allowlist.rules@, req.host@, req.method@) ==> scan_halts(
            rewriter.snapshot().rewrite@,
            req.headers@,
        ) && scan_halts(rewriter.snapshot().rewrite@, req.url@) && scan_halts(
            rewriter.snapshot().rewrite@,
            req.body@,
        ),
    ensures
        !allowed(allowlist.rules@, req.host@, req.method@) ==> (r matches ProxyDecision::Block {
            status,
            reason,
        } && status == 403 && reason@ == block_reason(req.method@, req.host@)),
        allowed(allowlist.rules@, req.host@, req.method@) ==> (r matches ProxyDecision::Allow {
            headers,
            url,
            body,
            matched,
        } && {
            let snap = rewriter.snapshot();
            &&& headers@ == rewritten(snap.real@, snap.rewrite@, req.headers@).0
            &&& url@ == rewritten(snap.real@, snap.rewrite@, req.url@).0
            &&& body@ == rewritten(snap.real@, snap.rewrite@, req.body@).0
            &&& matched@ == rewritten(snap.real@, snap.rewrite@, req.headers@).1 + rewritten(
                snap.real@,
                snap.rewrite@,
                req.url@,
            ).1 + rewritten(snap.real@, snap.rewrite@, req.body@).1
        }),
{
    if !allowlist.is_allowed(req.host.as_str(), req.method.as_str()) {
        let mut reason = owned("blocked host/method: ");
        push_str(&mut reason, req.method.as_str());
        push_str(&mut reason, " ");
        push_str(&mut reason, req.host.as_str());
        return ProxyDecision::Block { status: 403, reason };
    }
    let res = rewriter.rewrite_request(req.headers.as_slice(), req.url.as_slice(), req.body.as_slice());
    ProxyDecision::Allow { headers: res.headers, url: res.url, body: res.body, matched: res.matched }
}

/// The audit record of a handled request: a block is recorded with its
/// status and no traffic; a forwarded request with status 200, the bytes
/// sent up (rewritten headers, URL and body) and down, and which table
/// entries matched.
pub fn audit_record(req: &ProxyRequest, decision: &ProxyDecision, response_len: usize) -> (r:
    AuditRecord)
    requires
        decision matches ProxyDecision::Allow { headers, url, body, .. } ==> headers@.len()
            + url@.len() + body@.len() <= usize::MAX,
    ensures
        r.case_id == req.case_id,
        r.host == req.host,
        r.method == req.method,
        r.path == req.path,
        match *decision {
            ProxyDecision::Block { status, .. } => r.status == status && r.bytes_up == 0
                && r.bytes_down == 0 && r.matched_dummies@.len() == 0,
            ProxyDecision::Allow { headers, url, body, matched } => r.status == 200 && r.bytes_up
                == headers@.len() + url@.len() + body@.len() && r.bytes_down == response_len
                && r.matched_dummies@ == matched@,
        },
{
    let (status, bytes_up, bytes_down, matched_dummies) = match decision {
        ProxyDecision::Block { status, .. } => (*status, 0u64, 0u64, Vec::new()),
        ProxyDecision::Allow { headers, url, body, matched } => {
            let up = headers.len() + url.len() + body.len();
            let mut m: Vec<usize> = Vec::new();
            let mut i: usize = 0;
            while i < matched.len()
                invariant
                    i <= matched@.len(),
                    m@ == matched@.subrange(0, i as int),
                decreases matched.len() - i,
            {
                m.push(matched[i]);
                assert(m@ =~= matched@.subrange(0, i + 1));
                i = i + 1;
            }
            assert(m@ =~= matched@);
            (200u16, up as u64, response_len as u64, m)
        },
    };
    AuditRecord {
        case_id: req.case_id.duplicate(),
        host: req.host.clone(),
        method: req.method.clone(),
        path: req.path.clone(),
        status,
        bytes_up,
        bytes_down,
        matched_dummies,
    }
}

/// Close an allowed request once the upstream has answered: the one audit
/// record of the request and what the caller is answered. A reply is
/// recorded with status 200 and its length as the bytes sent down; a failed
/// forward is recorded with the HTTP status of its error code and nothing
/// sent down. Either way the upstream's result is handed back unchanged.
pub fn finish_forward(req: &ProxyRequest, decision: &ProxyDecision, forwarded: QwanResult<
    Vec<u8>,
>) -> (r: (AuditRecord, QwanResult<Vec<u8>>))
    requires
        decision matches ProxyDecision::Allow { headers, url, body, .. } && headers@.len()
            + url@.len() + body@.len() <= usize::MAX,
    ensures
        r.1 == forwarded,
        r.0.case_id == req.case_id,
        r.0.host == req.host,
        r.0.method == req.method,
        r.0.path == req.path,
        decision matches ProxyDecision::Allow { headers, url, body, matched } && r.0.bytes_up
            == headers@.len() + url@.len() + body@.len() && r.0.matched_dummies@ == matched@,
        match forwarded {
            Ok(resp) => r.0.status == 200 && r.0.bytes_down == resp@.len(),
            Err(e) => r.0.status == status_of(code_of(e)) && r.0.bytes_down == 0,
        },
{
    match forwarded {
        Ok(resp) => {
            let record = audit_record(req, decision, resp.len());
            (record, Ok(resp))
        },
        Err(e) => {
            let mut record = audit_record(req, decision, 0);
            record.status = e.code().http_status();
            (record, Err(e))
        },
    }
}

/// The error a blocked request is answered with.
pub fn block_error(reason: &str) -> (r: QwanError)
    ensures
        is_error(r, QwanCode::PermissionDenied, reason@),
{
    QwanError::new(QwanCode::PermissionDenied, reason)
}

} // verus!
