//! Toast notices: a capped queue of which the newest few are painted.

use vstd::prelude::*;

verus! {

#[derive(Debug, Clone, Copy, PartialEq, Eq, Structural)]
pub enum NoticeKind {
    Info,
    Good,
    Warn,
    Danger,
}

#[derive(Debug, Clone, PartialEq, Eq)]
pub struct Notice {
    pub id: u64,
    pub kind: NoticeKind,
    pub text: String,
}

/// At most this many notices are kept.
pub const NOTICE_CAP: usize = 8;

/// At most this many of the newest notices are painted.
pub const NOTICE_PAINT: usize = 3;

/// Milliseconds after which an auto-dismissing notice goes.
pub const NOTICE_AUTO_MS: u64 = 4000;

pub struct NoticeV {
    pub id: u64,
    pub kind: NoticeKind,
    pub text: Seq<char>,
}

pub open spec fn notice_view(n: Notice) -> NoticeV {
    NoticeV { id: n.id, kind: n.kind, text: n.text@ }
}

pub open spec fn notice_views(v: Seq<Notice>) -> Seq<NoticeV> {
    v.map_values(|n: Notice| notice_view(n))
}

/// The newest `NOTICE_CAP` of `s`.
pub open spec fn capped(s: Seq<NoticeV>) -> Seq<NoticeV> {
    if s.len() > NOTICE_CAP {
        s.skip(s.len() - NOTICE_CAP)
    } else {
        s
    }
}

/// `s` without the notices whose id is `id`, order kept.
pub open spec fn without_id(s: Seq<NoticeV>, id: u64) -> Seq<NoticeV>
    decreases s.len(),
{
    if s.len() == 0 {
        s
    } else if s.last().id == id {
        without_id(s.drop_last(), id)
    } else {
        without_id(s.drop_last(), id).push(s.last())
    }
}

/// Append a notice with the next id, dropping the oldest past the cap.
/// Returns the new notice's id.
pub fn push_notice(notices: &mut Vec<Notice>, next_id: &mut u64, kind: NoticeKind, text: String) -> (id: u64)
    requires
        *old(next_id) < u64::MAX,
    ensures
        id == *old(next_id),
        *final(next_id) == *old(next_id) + 1,
        notice_views(final(notices)@) == capped(
            notice_views(old(notices)@).push(NoticeV { id, kind, text: text@ }),
        ),
{
    let id = *next_id;
    *next_id = *next_id + 1;
    let ghost t = text@;
    notices.push(Notice { id, kind, text });
    let ghost full = notice_views(notices@);
    assert(full =~= notice_views(old(notices)@).push(NoticeV { id, kind, text: t }));
    if notices.len() > NOTICE_CAP {
        let drop = notices.len() - NOTICE_CAP;
        let mut kept: Vec<Notice> = Vec::new();
        let mut i: usize = drop;
        while i < notices.len()
            invariant
                drop <= i <= notices.len(),
                full == notice_views(notices@),
                notice_views(kept@) == full.subrange(drop as int, i as int),
            decreases notices.len() - i,
        {
            let n = Notice { id: notices[i].id, kind: notices[i].kind, text: notices[i].text.clone() };
            let ghost before = kept@;
            kept.push(n);
            assert(notice_views(kept@) =~= notice_views(before).push(full[i as int]));
            assert(full.subrange(drop as int, i + 1) =~= full.subrange(drop as int, i as int).push(
                full[i as int],
            ));
            i = i + 1;
        }
        assert(full.subrange(drop as int, notices.len() as int) =~= full.skip(drop as int));
        *notices = kept;
    }
    id
}

/// Remove the notice with `id`; true when one was removed.
pub fn dismiss_notice(notices: &mut Vec<Notice>, id: u64) -> (r: bool)
    ensures
        notice_views(final(notices)@) == without_id(notice_views(old(notices)@), id),
        r == (without_id(notice_views(old(notices)@), id).len() != old(notices)@.len()),
{
    let ghost all = notice_views(notices@);
    let mut kept: Vec<Notice> = Vec::new();
    let mut i: usize = 0;
    while i < notices.len()
        invariant
            i <= notices.len(),
            all == notice_views(notices@),
            notice_views(kept@) == without_id(all.take(i as int), id),
        decreases notices.len() - i,
    {
        assert(all.take(i + 1).drop_last() =~= all.take(i as int));
        if notices[i].id != id {
            let n = Notice { id: notices[i].id, kind: notices[i].kind, text: notices[i].text.clone() };
            let ghost before = kept@;
            kept.push(n);
            assert(notice_views(kept@) =~= notice_views(before).push(all[i as int]));
        }
        i = i + 1;
    }
    assert(all.take(notices.len() as int) =~= all);
    let before = notices.len();
    *notices = kept;
    notices.len() != before
}

/// Drop the newest notice; false when there was none.
pub fn dismiss_newest(notices: &mut Vec<Notice>) -> (r: bool)
    ensures
        r == (old(notices)@.len() > 0),
        r ==> final(notices)@ == old(notices)@.drop_last(),
        !r ==> final(notices)@ == old(notices)@,
{
    notices.pop().is_some()
}

/// The newest `NOTICE_PAINT` notices, oldest first.
pub fn visible_notices(notices: &[Notice]) -> (r: &[Notice])
    ensures
        r@ == notices@.skip(
            if notices@.len() > NOTICE_PAINT {
                notices@.len() - NOTICE_PAINT
            } else {
                0
            },
        ),
{
    let start = notices.len().saturating_sub(NOTICE_PAINT);
    let r = &notices[start..notices.len()];
    assert(r@ =~= notices@.skip(start as int));
    r
}

/// Info and Good notices go by themselves; Warn and Danger stay.
pub fn auto_dismisses(kind: NoticeKind) -> (r: bool)
    ensures
        r == (kind == NoticeKind::Info || kind == NoticeKind::Good),
{
    match kind {
        NoticeKind::Info | NoticeKind::Good => true,
        _ => false,
    }
}

/// The queue never holds more than `NOTICE_CAP` notices, and the newest
/// notice is always kept.
pub proof fn law_push_caps_and_keeps_newest(s: Seq<NoticeV>, n: NoticeV)
    ensures
        capped(s.push(n)).len() <= NOTICE_CAP,
        capped(s.push(n)).last() == n,
{
}

} // verus!
