//! The scan window: which page it may show, and what that page may ask of the camera.

use vstd::prelude::*;
use vstd::utf8::encode_utf8;

use crate::messages::{
    ALREADY_OPEN, INVALID_TARGET, UNCLOSED_WINDOW, UNCONFIGURED_CAMERA, UNOPENED_WINDOW,
};
use crate::text::{
    contains_char, contains_double_dot, has_double_dot, is_white_space, joined, lemma_trimmed,
    lemma_trimmed_twice, result_view, same_text, starts_with, trim, trimmed,
};

verus! {

/// The only page that the scan window shows.
pub const SCAN_PAGE: &'static str = "scan.html";

/// The start of that page with a query.
pub const SCAN_PAGE_QUERY: &'static str = "scan.html?";

/// The longest target, in bytes.
pub const MAX_TARGET_LEN: usize = 8192;

/// A target that the scan window may show: the scan page, with a query or without, and nothing
/// that leads elsewhere.
pub open spec fn is_scan_target(target: Seq<char>) -> bool {
    &&& encode_utf8(target).len() <= MAX_TARGET_LEN
    &&& target == SCAN_PAGE@ || SCAN_PAGE_QUERY@.is_prefix_of(target)
    &&& !has_double_dot(target)
    &&& !target.contains('#')
}

/// What is to be done with a request for the scan window.
pub enum ScanRequest {
    /// Refuse it with this text.
    Refuse(String),
    /// Bring the window that is open to the front, and refuse it with this text.
    Focus(String),
    /// Open a window that shows this target.
    Open(String),
}

/// What a [`ScanRequest`] stands for.
pub ghost enum ScanRequestView {
    Refuse(Seq<char>),
    Focus(Seq<char>),
    Open(Seq<char>),
}

impl View for ScanRequest {
    type V = ScanRequestView;

    open spec fn view(&self) -> ScanRequestView {
        match *self {
            ScanRequest::Refuse(text) => ScanRequestView::Refuse(text@),
            ScanRequest::Focus(text) => ScanRequestView::Focus(text@),
            ScanRequest::Open(target) => ScanRequestView::Open(target@),
        }
    }
}

/// What is to be done with a request for the scan window.
pub open spec fn scan_request(target: Seq<char>, already_open: bool) -> ScanRequestView {
    if !is_scan_target(trimmed(target)) {
        ScanRequestView::Refuse(INVALID_TARGET@)
    } else if already_open {
        ScanRequestView::Focus(ALREADY_OPEN@)
    } else {
        ScanRequestView::Open(trimmed(target))
    }
}

/// What is to be done with a request to open a target in the scan window, given whether there is
/// such a window already.
pub fn open_scan_window(target: &str, already_open: bool) -> (r: ScanRequest)
    ensures
        r@ == scan_request(target@, already_open),
        match r {
            ScanRequest::Refuse(text) => text@ == INVALID_TARGET@,
            ScanRequest::Focus(text) => already_open && text@ == ALREADY_OPEN@,
            ScanRequest::Open(opened) => !already_open && opened@ == trimmed(target@),
        },
        r is Refuse <==> {
            ||| encode_utf8(trimmed(target@)).len() > 8192
            ||| trimmed(target@) != "scan.html"@ && !"scan.html?"@.is_prefix_of(trimmed(target@))
            ||| exists|i: int|
                0 <= i < trimmed(target@).len() - 1 && #[trigger] trimmed(target@)[i] == '.'
                    && trimmed(target@)[i + 1] == '.'
            ||| trimmed(target@).contains('#')
        },
{
    let target = trim(target);
    if target.as_bytes().len() > MAX_TARGET_LEN || !(same_text(target, SCAN_PAGE) || starts_with(
        target,
        SCAN_PAGE_QUERY,
    )) || contains_double_dot(target) || contains_char(target, '#') {
        return ScanRequest::Refuse(INVALID_TARGET.to_owned());
    }
    if already_open {
        return ScanRequest::Focus(ALREADY_OPEN.to_owned());
    }
    ScanRequest::Open(target.to_owned())
}

/// What is asked for is judged without the white space around it, by four conditions and no other:
/// it is at most 8192 bytes long, it is the scan page or starts with that page and a question mark,
/// it holds no two full stops in a row, and it holds no number sign. If they hold it is opened as
/// it is, unless a window is open; if one fails it is refused.
pub proof fn lemma_scan_page_is_opened(
    before: Seq<char>,
    target: Seq<char>,
    after: Seq<char>,
    already_open: bool,
)
    requires
        forall|i: int| 0 <= i < before.len() ==> is_white_space(#[trigger] before[i]),
        forall|i: int| 0 <= i < after.len() ==> is_white_space(#[trigger] after[i]),
        target.len() > 0 ==> !is_white_space(target.first()) && !is_white_space(target.last()),
    ensures
        ({
            &&& encode_utf8(target).len() <= 8192
            &&& target == "scan.html"@ || "scan.html?"@.is_prefix_of(target)
            &&& forall|i: int|
                0 <= i < target.len() - 1 ==> !(#[trigger] target[i] == '.' && target[i + 1] == '.')
            &&& forall|i: int| 0 <= i < target.len() ==> #[trigger] target[i] != '#'
        }) ==> scan_request(before + target + after, already_open) == if already_open {
            ScanRequestView::Focus(ALREADY_OPEN@)
        } else {
            ScanRequestView::Open(target)
        },
        ({
            ||| encode_utf8(target).len() > 8192
            ||| target != "scan.html"@ && !"scan.html?"@.is_prefix_of(target)
            ||| exists|i: int|
                0 <= i < target.len() - 1 && #[trigger] target[i] == '.' && target[i + 1] == '.'
            ||| exists|i: int| 0 <= i < target.len() && #[trigger] target[i] == '#'
        }) ==> scan_request(before + target + after, already_open) == ScanRequestView::Refuse(
            INVALID_TARGET@,
        ),
{
    lemma_trimmed(before, target, after);
}

/// Whatever is asked for, the target of a window that is opened is the scan page: it is short
/// enough, starts with the name of the page, and holds neither a step up nor a fragment. Asking
/// for that target again comes to the same.
pub proof fn lemma_only_scan_page(target: Seq<char>, already_open: bool)
    ensures
        scan_request(target, already_open) matches ScanRequestView::Open(opened) ==> {
            &&& !already_open
            &&& SCAN_PAGE@.is_prefix_of(opened)
            &&& encode_utf8(opened).len() <= MAX_TARGET_LEN
            &&& !has_double_dot(opened)
            &&& !opened.contains('#')
            &&& scan_request(opened, false) == ScanRequestView::Open(opened)
        },
{
    lemma_trimmed_twice(target);
    let opened = trimmed(target);
    reveal_strlit("scan.html");
    reveal_strlit("scan.html?");
    assert(SCAN_PAGE@ =~= SCAN_PAGE_QUERY@.take(9));
    if SCAN_PAGE_QUERY@.is_prefix_of(opened) {
        assert(opened.subrange(0, 9) =~= opened.subrange(0, 10).take(9));
    } else if opened == SCAN_PAGE@ {
        assert(opened.subrange(0, 9) =~= opened);
    }
}

/// What became of a window that was to be opened.
pub fn opened_scan_window(outcome: Result<(), String>) -> (r: Result<(), String>)
    ensures
        result_view(r) == match outcome {
            Ok(()) => Ok(()),
            Err(reason) => Err(UNOPENED_WINDOW@ + reason@),
        },
{
    match outcome {
        Ok(()) => Ok(()),
        Err(reason) => Err(joined(UNOPENED_WINDOW, reason.as_str())),
    }
}

/// What became of the scan window that was to be closed: `closed` is how that went, or `None` if
/// there was no window.
pub fn close_scan_window(closed: Option<Result<(), String>>) -> (r: Result<(), String>)
    ensures
        result_view(r) == match closed {
            Some(Err(reason)) => Err(UNCLOSED_WINDOW@ + reason@),
            _ => Ok(()),
        },
{
    match closed {
        Some(Err(reason)) => Err(joined(UNCLOSED_WINDOW, reason.as_str())),
        _ => Ok(()),
    }
}

/// A request of a page for a permission.
#[derive(Debug, Clone, Copy, PartialEq, Eq, Structural)]
pub enum PermissionRequest {
    /// To record with the devices that are marked.
    UserMedia { video: bool, audio: bool },
    /// To read which devices there are.
    DeviceInfo,
    /// Anything else.
    Other,
}

/// What is answered to a request.
#[derive(Debug, Clone, Copy, PartialEq, Eq, Structural)]
pub enum PermissionAnswer {
    Allow,
    Deny,
    /// Leave it to the web view.
    Pass,
}

/// What is answered to a request: the camera is allowed, alone, and the list of devices.
pub open spec fn permission_answer(request: PermissionRequest) -> PermissionAnswer {
    match request {
        PermissionRequest::UserMedia { video, audio } => if video && !audio {
            PermissionAnswer::Allow
        } else {
            PermissionAnswer::Deny
        },
        PermissionRequest::DeviceInfo => PermissionAnswer::Allow,
        PermissionRequest::Other => PermissionAnswer::Pass,
    }
}

/// What is answered to a request of a page for a permission.
pub fn answer_permission(request: PermissionRequest) -> (r: PermissionAnswer)
    ensures
        r == permission_answer(request),
        r is Allow <==> request is DeviceInfo || (request matches PermissionRequest::UserMedia {
            video,
            audio,
        } && video && !audio),
        r is Pass <==> request is Other,
{
    match request {
        PermissionRequest::UserMedia { video, audio } => {
            if video && !audio {
                PermissionAnswer::Allow
            } else {
                PermissionAnswer::Deny
            }
        },
        PermissionRequest::DeviceInfo => PermissionAnswer::Allow,
        PermissionRequest::Other => PermissionAnswer::Pass,
    }
}

/// Recording is allowed for the camera alone: a request that takes in the microphone is denied,
/// and so is one that takes in no camera. The list of devices may be read, and anything else is
/// left to the web view.
pub proof fn lemma_camera_only(video: bool, audio: bool)
    ensures
        permission_answer(PermissionRequest::DeviceInfo) == PermissionAnswer::Allow,
        permission_answer(PermissionRequest::Other) == PermissionAnswer::Pass,
        !video ==> permission_answer(PermissionRequest::UserMedia { video, audio })
            == PermissionAnswer::Deny,
        permission_answer(PermissionRequest::UserMedia { video, audio })
            == PermissionAnswer::Allow <==> video && !audio,
        audio ==> permission_answer(PermissionRequest::UserMedia { video, audio })
            == PermissionAnswer::Deny,
{
}

/// What became of the answers that were to be set up for a window.
pub fn configure_linux_media_permissions(outcome: Result<(), String>) -> (r: Result<(), String>)
    ensures
        result_view(r) == match outcome {
            Ok(()) => Ok(()),
            Err(reason) => Err(UNCONFIGURED_CAMERA@ + reason@),
        },
{
    match outcome {
        Ok(()) => Ok(()),
        Err(reason) => Err(joined(UNCONFIGURED_CAMERA, reason.as_str())),
    }
}

}
