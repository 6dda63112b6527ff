//! What is to be told to those who run the server.

use vstd::prelude::*;

verus! {

/// How important a notice is.
#[derive(Debug, Clone, Copy, PartialEq, Eq, Structural)]
pub enum NoticeLevel {
    Debug,
    Warn,
}

/// A line for the log.
#[derive(Debug)]
pub struct Notice {
    pub level: NoticeLevel,
    pub text: String,
}

/// What a notice says.
pub struct NoticeView {
    pub level: NoticeLevel,
    pub text: Seq<char>,
}

impl View for Notice {
    type V = NoticeView;

    open spec fn view(&self) -> NoticeView {
        NoticeView { level: self.level, text: self.text@ }
    }
}

/// What a notice that may be missing says.
pub open spec fn notice_of(notice: Option<Notice>) -> Option<NoticeView> {
    match notice {
        Some(notice) => Some(notice@),
        None => None,
    }
}

/// What the notices say.
pub open spec fn notice_views(notices: Seq<Notice>) -> Seq<NoticeView> {
    notices.map_values(|notice: Notice| notice@)
}

/// Notices say their levels and texts, in order.
pub proof fn law_what_notices_say(notices: Seq<Notice>, i: int)
    requires
        0 <= i < notices.len(),
    ensures
        notice_views(notices).len() == notices.len(),
        notice_views(notices)[i].level == notices[i].level,
        notice_views(notices)[i].text == notices[i].text@,
        notice_of(Some(notices[i])) == Some(notices[i]@),
        notice_of(None) is None,
{
}

} // verus!
