//! The notice that reports an update to the user.

use vstd::prelude::*;
use crate::model::{ModUpdate, Notification};

verus! {

/// The title of every update notice.
pub open spec fn update_title() -> Seq<char> {
    "Обновление мода"@
}

/// The message of an update notice: both versions where both are known, else a
/// generic line.
pub open spec fn update_message_of(old_version: Option<Seq<char>>, new_version: Option<Seq<char>>) -> Seq<char> {
    match (old_version, new_version) {
        (Some(o), Some(n)) => "Версия изменена: "@ + o + " → "@ + n,
        _ => "Мод обновлен"@,
    }
}

/// The message of the notice for `update`.
pub fn update_message(update: &ModUpdate) -> (r: String)
    ensures
        r@ == update_message_of(update.old_version.deep_view(), update.new_version.deep_view()),
{
    match (&update.old_version, &update.new_version) {
        (Some(o), Some(n)) => String::from_str("Версия изменена: ").concat(o.as_str()).concat(" → ").concat(
            n.as_str(),
        ),
        _ => String::from_str("Мод обновлен"),
    }
}

/// The unread notice for `update`, created at `now`.
pub fn notification_for(update: &ModUpdate, now: i64) -> (r: Notification)
    ensures
        r.id == 0,
        r.mod_id == update.mod_id,
        r.site_id == update.site_id,
        r.title@ == update_title(),
        r.message@ == update_message_of(update.old_version.deep_view(), update.new_version.deep_view()),
        !r.read,
        r.created_at == now,
{
    Notification {
        id: 0,
        mod_id: update.mod_id,
        site_id: update.site_id,
        title: String::from_str("Обновление мода"),
        message: update_message(update),
        read: false,
        created_at: now,
    }
}

} // verus!
