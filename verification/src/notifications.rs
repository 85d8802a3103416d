//! Notification ids: each notification sent gets the next id of a counter that
//! starts at 1 (and wraps around like an `i32`). Showing the notification is the
//! caller's part.
use vstd::prelude::*;

verus! {

/// Source of notification ids.
pub struct NotificationCounter {
    next: i32,
}

impl NotificationCounter {
    /// The id that the next notification gets.
    pub closed spec fn next_id(&self) -> i32 {
        self.next
    }

    /// A counter whose first id is 1.
    pub fn new() -> (r: NotificationCounter)
        ensures
            r.next_id() == 1,
    {
        NotificationCounter { next: 1 }
    }

    fn take(&mut self) -> (r: i32)
        ensures
            r == old(self).next_id(),
            final(self).next_id() == old(self).next_id().wrapping_add(1),
    {
        let id = self.next;
        self.next = id.wrapping_add(1);
        id
    }
}

/// Gives a notification with `title` and `body` its id; always succeeds.
pub fn send_android_notification(counter: &mut NotificationCounter, title: &str, body: &str) -> (r: Result<
    i32,
    String,
>)
    ensures
        r == Ok::<i32, String>(old(counter).next_id()),
        final(counter).next_id() == old(counter).next_id().wrapping_add(1),
{
    Ok(counter.take())
}

/// Gives a notification that opens `address` in a map its id; always succeeds.
pub fn send_notification_with_map_action(
    counter: &mut NotificationCounter,
    title: &str,
    body: &str,
    address: &str,
) -> (r: Result<i32, String>)
    ensures
        r == Ok::<i32, String>(old(counter).next_id()),
        final(counter).next_id() == old(counter).next_id().wrapping_add(1),
{
    Ok(counter.take())
}

/// Cancelling a notification always succeeds.
pub fn cancel_notification(notification_id: i32) -> (r: Result<(), String>)
    ensures
        r is Ok,
{
    Ok(())
}

/// Channels need no set-up outside Android: nothing to do.
pub fn create_notification_channel(channel_id: &str, channel_name: &str, importance: i32) {
}

} // verus!
