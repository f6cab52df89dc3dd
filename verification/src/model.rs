//! The records that the pipeline reads and produces, and their views.

use vstd::prelude::*;

verus! {

/// A structured attachment that may carry a shared URL.
#[derive(Debug, PartialEq)]
pub struct Share {
    pub link: Option<String>,
}

/// What a [`Share`] holds, as plain characters.
pub struct ShareView {
    pub link: Option<Seq<char>>,
}

impl DeepView for Share {
    type V = ShareView;

    open spec fn deep_view(&self) -> ShareView {
        ShareView { link: self.link.deep_view() }
    }
}

impl View for Share {
    type V = ShareView;

    open spec fn view(&self) -> ShareView {
        self.deep_view()
    }
}

impl Clone for Share {
    fn clone(&self) -> (copy: Share)
        ensures
            copy == *self,
    {
        Share { link: clone_text_option(&self.link) }
    }
}

/// One chat event.
#[derive(Debug, PartialEq)]
pub struct Message {
    pub sender_name: String,
    pub content: Option<String>,
    /// Milliseconds since the Unix epoch, UTC.
    pub timestamp_ms: i64,
    pub share: Option<Share>,
}

/// What a [`Message`] holds, as plain characters and integers.
pub struct MessageView {
    pub sender_name: Seq<char>,
    pub content: Option<Seq<char>>,
    pub timestamp_ms: i64,
    pub share: Option<ShareView>,
}

impl DeepView for Message {
    type V = MessageView;

    open spec fn deep_view(&self) -> MessageView {
        MessageView {
            sender_name: self.sender_name@,
            content: self.content.deep_view(),
            timestamp_ms: self.timestamp_ms,
            share: self.share.deep_view(),
        }
    }
}

impl View for Message {
    type V = MessageView;

    open spec fn view(&self) -> MessageView {
        self.deep_view()
    }
}

impl Clone for Message {
    fn clone(&self) -> (copy: Message)
        ensures
            copy == *self,
    {
        Message {
            sender_name: self.sender_name.clone(),
            content: clone_text_option(&self.content),
            timestamp_ms: self.timestamp_ms,
            share: match &self.share {
                Some(share) => Some(share.clone()),
                None => None,
            },
        }
    }
}

/// One extracted link with its sender and the date it was sent.
#[derive(Debug, PartialEq)]
pub struct LinkInfo {
    pub sender_name: String,
    pub date: String,
    pub link: String,
}

/// What a [`LinkInfo`] holds, as plain characters.
pub struct LinkInfoView {
    pub sender_name: Seq<char>,
    pub date: Seq<char>,
    pub link: Seq<char>,
}

impl DeepView for LinkInfo {
    type V = LinkInfoView;

    open spec fn deep_view(&self) -> LinkInfoView {
        LinkInfoView { sender_name: self.sender_name@, date: self.date@, link: self.link@ }
    }
}

impl View for LinkInfo {
    type V = LinkInfoView;

    open spec fn view(&self) -> LinkInfoView {
        self.deep_view()
    }
}

/// A partial calendar date: each field that is set must match.
#[derive(Debug, Clone, Copy)]
pub struct DateFilter {
    pub year: Option<i32>,
    pub month: Option<u32>,
    pub day: Option<u32>,
}

/// What one run of the pipeline works on and which links it keeps.
#[derive(Debug)]
pub struct Config {
    /// Where the message archive is read from.
    pub filename: String,
    /// Keep only links that contain this text.
    pub site: Option<String>,
    /// Keep only messages whose sender name contains this text.
    pub sender: Option<String>,
}

/// How the program was asked to run.
#[derive(Debug, Clone, Copy, PartialEq, Eq, Structural)]
pub enum LaunchingMode {
    Server,
    Cli,
}

/// A parsed message archive.
#[derive(Debug)]
pub struct JsonValue {
    pub messages: Vec<Message>,
}

fn clone_text_option(text: &Option<String>) -> (copy: Option<String>)
    ensures
        copy == *text,
{
    match text {
        Some(s) => Some(s.clone()),
        None => None,
    }
}

} // verus!
