//! Laws of the views: each holds what its value holds, part by part.
use vstd::prelude::*;
use crate::bundle::{BundleRef, Manifest, Target};
use crate::publish::{Plan, PlanView};
use crate::reply::Reply;
use crate::resolve::{
    HostStep, HostStepView, HubReply, HubReplyView, HubRequest, ManifestStep, ManifestStepView,
};
use crate::serve::{LocalFile, Lookup, Next, NextView, OpenBundle, ReadFile, SendFile};

verus! {

broadcast use vstd::string::group_string_axioms;

/// An optional text is there where the string is, and is its text.
pub proof fn law_optional_texts(s: String, t: &str, bytes: Vec<u8>)
    ensures
        crate::text::text(Some(s)) == Some(s@),
        crate::text::text(None) is None,
        crate::text::text_ref(Some(t)) == Some(t@),
        crate::text::text_ref(None) is None,
        crate::serve::bytes_of(Some(bytes)) == Some(bytes@),
        crate::serve::bytes_of(None) is None,
{
}

/// A bundle's reference, its manifest and a file in it are seen with all that they hold.
pub proof fn law_bundle_views(b: BundleRef, m: Manifest, t: Target)
    ensures
        b@.app_id == b.app_id@ && b@.cid == b.cid@ && b@.spa == b.spa,
        m@.files == m.files@ && m@.spa == m.spa,
        crate::resolve::bundle_texts(Some(b)) == Some(b@),
        crate::resolve::bundle_texts(None) is None,
        crate::resolve::manifest_view(Some(m)) == Some(m@),
        crate::resolve::manifest_view(None) is None,
        crate::serve::manifest_texts(Some(&m)) == Some(m@),
        crate::serve::manifest_texts(None) is None,
        crate::bundle::target_texts(Some(t)) == Some((t.cid@, t.content_type@)),
        crate::bundle::target_texts(None) is None,
{
}

/// What the resolver asks for, and what it is told, is seen with all that it holds.
pub proof fn law_resolver_views(
    b: BundleRef,
    service: &'static str,
    request: HubRequest,
    m: Manifest,
    bytes: Vec<u8>,
)
    ensures
        HostStep::Done(Some(b))@ == HostStepView::Done(Some(b@)),
        HostStep::Done(None)@ == HostStepView::Done(None),
        HostStep::FindHub(service)@ == HostStepView::FindHub(service@),
        HostStep::Ask(request)@ == (HostStepView::Ask {
            node: request.node@,
            topic: request.topic@,
            payload: request.payload@,
            timeout_ms: request.timeout_ms,
        }),
        HubReply::Failed@ == HubReplyView::Failed,
        HubReply::Replied(Some(b))@ == HubReplyView::Replied(Some(b@)),
        HubReply::Replied(None)@ == HubReplyView::Replied(None),
        ManifestStep::Done(m)@ == ManifestStepView::Done(m@),
        ManifestStep::Decode(bytes)@ == ManifestStepView::Decode(bytes@),
        ManifestStep::Fetch@ == ManifestStepView::Fetch,
{
}

/// An answer is seen with its status, its headers and its body.
pub proof fn law_reply_view(r: Reply)
    ensures
        r@.status == r.status,
        r@.body == r.body@,
        r.content_type matches Some(s) ==> r@.content_type == Some(s@),
        r.content_type is None ==> r@.content_type is None,
        r.cache_control matches Some(s) ==> r@.cache_control == Some(s@),
        r.cache_control is None ==> r@.cache_control is None,
        r.etag matches Some(s) ==> r@.etag == Some(s@),
        r.etag is None ==> r@.etag is None,
{
}

/// What a request needs next is seen with all that it holds.
pub proof fn law_request_views(
    reply: Reply,
    lookup: Lookup,
    open: OpenBundle,
    send: SendFile,
    read: ReadFile,
    file: LocalFile,
)
    ensures
        Next::Answer(reply)@ == NextView::Answer(reply@),
        Next::Resolve(lookup)@ == lookup@ && lookup@ == (NextView::Resolve {
            host: lookup.host@,
            key: lookup.key@,
            held: crate::text::text(lookup.held),
        }),
        Next::Manifest(open)@ == open@ && open@ == (NextView::Manifest {
            bundle: open.bundle@,
            key: open.key@,
            held: crate::text::text(open.held),
        }),
        Next::Blob(send)@ == send@ && send@ == (NextView::Blob {
            cid: send.target.cid@,
            content_type: send.target.content_type@,
            immutable: send.immutable,
        }),
        Next::Load(read)@ == read@ && read@ == (NextView::Load {
            key: read.key@,
            attempt: read.attempt,
        }),
        crate::serve::file_texts(Some(file)) == Some((file.bytes@, file.content_type@)),
        crate::serve::file_texts(None) is None,
{
}

/// A command line, a plan and the rows of a table are seen part by part, in order.
pub proof fn law_publishing_views(
    args: Seq<String>,
    plan: Plan,
    rows: Seq<(String, String)>,
)
    ensures
        crate::publish::arg_texts(args).len() == args.len(),
        forall|i: int|
            0 <= i < args.len() ==> #[trigger] crate::publish::arg_texts(args)[i] == args[i]@,
        crate::publish::plan_texts(Some(plan)) == Some(
            PlanView { dir: plan.dir@, host: plan.host@, app_id: plan.app_id@, spa: plan.spa },
        ),
        crate::publish::plan_texts(None) is None,
        crate::table::row_texts(rows).len() == rows.len(),
        forall|i: int|
            0 <= i < rows.len() ==> #[trigger] crate::table::row_texts(rows)[i] == (
                rows[i].0@,
                rows[i].1@,
            ),
{
}

} // verus!
