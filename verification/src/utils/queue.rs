//! Which end of the queue a new entry joins.

use vstd::prelude::*;
use crate::models::metadata::{take_text, text_or_empty};
use crate::models::playlist::Playlist;
use crate::models::queue_item::QueueItemKind;

verus! {

/// Where an enqueued entry goes.
#[derive(Debug, PartialEq, Eq, Structural, Clone, Copy)]
pub enum QueueType {
    /// Ahead of everything queued, to play next.
    Front,
    /// Behind everything queued.
    Back,
}

/// Queue what a link resolved to at the end `queue_type` names, and give the title to
/// announce: for one track, `single_title` (what its metadata names), for a playlist its
/// own title; empty where there is none. A playlist's tracks keep their order, ahead of
/// everything queued or behind it.
pub fn enqueue<T>(playlist: &mut Playlist<T>, kind: QueueItemKind<T>, single_title: Option<String>, queue_type: QueueType) -> (title: String)
    ensures
        match kind {
            QueueItemKind::Single(t) => {
                &&& final(playlist)@ == match queue_type {
                    QueueType::Front => seq![t] + old(playlist)@,
                    QueueType::Back => old(playlist)@.push(t),
                }
                &&& title@ == text_or_empty(single_title)
            },
            QueueItemKind::Playlist(p) => {
                &&& final(playlist)@ == match queue_type {
                    QueueType::Front => p.entries@ + old(playlist)@,
                    QueueType::Back => old(playlist)@ + p.entries@,
                }
                &&& title@ == text_or_empty(p.title)
            },
        },
{
    match kind {
        QueueItemKind::Single(t) => {
            playlist.enqueue(t, queue_type);
            take_text(single_title)
        },
        QueueItemKind::Playlist(p) => {
            let title = take_text(p.title);
            playlist.enqueue_all(p.entries, queue_type);
            title
        },
    }
}

} // verus!
