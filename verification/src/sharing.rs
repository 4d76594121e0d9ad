//! What a device says about itself, and what it keeps to itself.

use vstd::prelude::*;

use crate::config::{listed, Privacy};
use crate::model::{app_text, option_text, AppText, ForegroundApp};

verus! {

/// Stands for an application that is not named.
pub const HIDDEN: &'static str = "（隐藏）";

/// What is said of the application in front. A blocked one is replaced rather than
/// left out: leaving the field empty would look like the device stopped
/// reporting.
pub open spec fn shared_app(p: Privacy, sample: Option<ForegroundApp>) -> Option<AppText> {
    match sample {
        Some(fg) => if !p.share_foreground_app {
            None
        } else if listed(p.blocked_apps@, fg.app@) {
            Some(AppText { app: HIDDEN@, name: None, title: None })
        } else {
            Some(
                AppText {
                    title: if p.share_window_title {
                        option_text(fg.title)
                    } else {
                        None
                    },
                    ..fg@
                },
            )
        },
        None => None,
    }
}

/// What is said of the application in front.
pub fn share_foreground(p: &Privacy, sample: &Option<ForegroundApp>) -> (r: Option<ForegroundApp>)
    ensures
        app_text(r) == shared_app(*p, *sample),
{
    match sample {
        Some(fg) => {
            if !p.share_foreground_app {
                None
            } else if p.is_blocked(fg.app.as_str()) {
                Some(ForegroundApp { app: HIDDEN.to_string(), name: None, title: None })
            } else {
                let mut shown = fg.clone();
                if !p.share_window_title {
                    shown.title = None;
                }
                Some(shown)
            }
        },
        None => None,
    }
}

/// Of a blocked application nothing gets out: whichever it is, the same is said.
pub proof fn blocked_apps_look_alike(p: Privacy, a: ForegroundApp, b: ForegroundApp)
    requires
        listed(p.blocked_apps@, a.app@),
        listed(p.blocked_apps@, b.app@),
    ensures
        shared_app(p, Some(a)) == shared_app(p, Some(b)),
{
}

/// Without permission neither an application nor a title is told.
pub proof fn apps_and_titles_need_permission(p: Privacy, sample: Option<ForegroundApp>)
    ensures
        !p.share_foreground_app ==> shared_app(p, sample) is None,
        !p.share_window_title ==> (shared_app(p, sample) matches Some(a) ==> a.title is None),
{
}

/// What may be told is told: an application that is not blocked is named as it is,
/// with its title where titles may be told, and one that is blocked still shows that
/// something is in front.
pub proof fn permitted_apps_are_told(p: Privacy, fg: ForegroundApp)
    requires
        p.share_foreground_app,
    ensures
        shared_app(p, Some(fg)) is Some,
        shared_app(p, None) is None,
        !listed(p.blocked_apps@, fg.app@) ==> {
            let told = shared_app(p, Some(fg))->0;
            &&& told.app == fg.app@
            &&& told.name == option_text(fg.name)
            &&& p.share_window_title ==> told.title == option_text(fg.title)
        },
        listed(p.blocked_apps@, fg.app@) ==> {
            let told = shared_app(p, Some(fg))->0;
            told.app == "（隐藏）"@ && told.name is None && told.title is None
        },
{
}

}
