//! What the Discord bot hands to the executor for an incoming message.
//!
//! Messages from bots are ignored, and so are messages that neither mention
//! the bot nor carry attachments.  Attached videos that clients cannot
//! preview (those without a height) are turned into a request to recode
//! them; otherwise a message that mentions the bot is handed over as it is.

use vstd::prelude::*;

use crate::jobs::{recode_report, video_file_name_spec};
use crate::runner::{Either, JobView, MismatchView, OutputView, RunnerView};
use crate::snippets::code::{fence, fenced_block, H264ify};
use crate::snippets::MrSnippet;
use crate::text::{
    find_spec, join, join_spec, lemma_find_spec,
    lemma_rfind_spec, lemma_split_join, occurs_at, rfind_spec, starts_with,
    starts_with_spec,
};

verus! {

/// What the bot knows of one attachment.
pub struct Attachment {
    /// Where the attachment can be downloaded.
    pub url: String,
    /// Its MIME type, if Discord knows it.
    pub content_type: Option<String>,
    /// Its height, for images and videos that clients can preview.
    pub height: Option<u64>,
}

/// The attachment is a video that clients cannot preview.
pub open spec fn needs_recoding(a: Attachment) -> bool {
    &&& a.content_type matches Some(t) && starts_with_spec(t@, "video/"@)
    &&& a.height is None
}

/// The URLs of the attachments that need recoding, in order.
pub open spec fn recoding_urls(attachments: Seq<Attachment>) -> Seq<Seq<char>>
    decreases attachments.len(),
{
    if attachments.len() == 0 {
        Seq::empty()
    } else {
        let rest = recoding_urls(attachments.drop_last());
        if needs_recoding(attachments.last()) {
            rest.push(attachments.last().url@)
        } else {
            rest
        }
    }
}

/// The message asking to recode the videos at `urls`: a block opened by
/// "```h264ify" with one URL per line.
pub open spec fn recoding_request(urls: Seq<Seq<char>>) -> Seq<char> {
    "```h264ify"@ + join_spec(urls, "\n"@) + "```"@
}

/// What the bot hands to the executor for a message, if anything.
pub open spec fn incoming_spec(
    content: Seq<char>,
    from_bot: bool,
    mentioned: bool,
    attachments: Seq<Attachment>,
) -> Option<Seq<char>> {
    if from_bot || (!mentioned && attachments.len() == 0) {
        None
    } else if recoding_urls(attachments).len() > 0 {
        Some(recoding_request(recoding_urls(attachments)))
    } else if !mentioned {
        None
    } else {
        Some(content)
    }
}

/// What the bot hands to the executor for a message with `content`, sent by
/// a bot or not, mentioning this bot or not, with these attachments.
pub fn incoming_message(
    content: &str,
    from_bot: bool,
    mentioned: bool,
    attachments: &Vec<Attachment>,
) -> (r: Option<String>)
    ensures
        match r {
            Some(m) => incoming_spec(content@, from_bot, mentioned, attachments@) == Some(m@),
            None => incoming_spec(content@, from_bot, mentioned, attachments@) is None,
        },
{
    if from_bot || (!mentioned && attachments.len() == 0) {
        return None;
    }
    let mut urls: Vec<String> = Vec::new();
    let mut i: usize = 0;
    while i < attachments.len()
        invariant
            i <= attachments.len(),
            urls.deep_view() == recoding_urls(attachments@.take(i as int)),
        decreases attachments.len() - i,
    {
        let a = &attachments[i];
        assert(attachments@.take(i + 1).drop_last() =~= attachments@.take(i as int));
        let is_video = match &a.content_type {
            Some(t) => starts_with(t.as_str(), "video/"),
            None => false,
        };
        if is_video && a.height.is_none() {
            let ghost before = urls.deep_view();
            urls.push(a.url.clone());
            assert(urls.deep_view() =~= before.push(a.url@));
        }
        i += 1;
    }
    assert(attachments@.take(attachments.len() as int) =~= attachments@);
    if urls.len() > 0 {
        let mut m = "```h264ify".to_owned();
        let joined = join(&urls, "\n");
        m.append(joined.as_str());
        m.append("```");
        Some(m)
    } else if !mentioned {
        None
    } else {
        Some(content.to_owned())
    }
}


/// An attachment needs recoding exactly when Discord calls it a video (its
/// type begins with "video/") and knows no height for it: images, other
/// files, and videos that clients can preview are left alone.
pub proof fn lemma_needs_recoding(a: Attachment)
    ensures
        needs_recoding(a) <==> (a.content_type matches Some(t) && t@.len() >= 6 && t@.take(6)
            == "video/"@ && a.height is None),
{
    reveal_strlit("video/");
}

/// The videos to recode are exactly those of the attachments that need it:
/// never more URLs than attachments, every attachment that needs recoding
/// has its URL among them, and each of them is the URL of one that does.
pub proof fn lemma_recoding_urls(attachments: Seq<Attachment>)
    ensures
        recoding_urls(attachments).len() <= attachments.len(),
        forall|k: int|
            0 <= k < attachments.len() && needs_recoding(#[trigger] attachments[k])
                ==> recoding_urls(attachments).contains(attachments[k].url@),
        forall|u: Seq<char>|
            #[trigger] recoding_urls(attachments).contains(u) ==> exists|k: int|
                0 <= k < attachments.len() && needs_recoding(#[trigger] attachments[k])
                    && attachments[k].url@ == u,
    decreases attachments.len(),
{
    if attachments.len() > 0 {
        let init = attachments.drop_last();
        let last = attachments.last();
        lemma_recoding_urls(init);
        let rest = recoding_urls(init);
        let all = recoding_urls(attachments);
        assert forall|k: int|
            0 <= k < attachments.len() && needs_recoding(#[trigger] attachments[k]) implies all.contains(
            attachments[k].url@,
        ) by {
            if k < attachments.len() - 1 {
                assert(init[k] == attachments[k]);
                let w = choose|w: int| 0 <= w < rest.len() && rest[w] == attachments[k].url@;
                if needs_recoding(last) {
                    assert(all[w] == rest[w]);
                }
            } else {
                assert(all[all.len() - 1] == last.url@);
            }
        }
        assert forall|u: Seq<char>| #[trigger] all.contains(u) implies exists|k: int|
            0 <= k < attachments.len() && needs_recoding(#[trigger] attachments[k])
                && attachments[k].url@ == u by {
            let w = choose|w: int| 0 <= w < all.len() && all[w] == u;
            if w < rest.len() {
                assert(rest[w] == u);
                assert(rest.contains(u));
                let k = choose|k: int|
                    0 <= k < init.len() && needs_recoding(#[trigger] init[k]) && init[k].url@ == u;
                assert(attachments[k] == init[k]);
            } else {
                assert(attachments[attachments.len() - 1] == last);
            }
        }
    }
}

/// What the bot hands over for a message: nothing for a message from a
/// bot. For any other message with attached videos that clients cannot
/// preview, the request to recode exactly those videos, whether the bot is
/// mentioned or not and whatever the text says. Otherwise the text itself
/// when the bot is mentioned, and nothing when it is not.
pub proof fn lemma_incoming_message(
    content: Seq<char>,
    other_content: Seq<char>,
    mentioned: bool,
    other_mentioned: bool,
    attachments: Seq<Attachment>,
)
    ensures
        incoming_spec(content, true, mentioned, attachments) is None,
        recoding_urls(attachments).len() > 0 ==> incoming_spec(content, false, mentioned, attachments)
            == Some(recoding_request(recoding_urls(attachments))) && incoming_spec(
            content,
            false,
            mentioned,
            attachments,
        ) == incoming_spec(other_content, false, other_mentioned, attachments),
        recoding_urls(attachments).len() == 0 ==> incoming_spec(content, false, true, attachments)
            == Some(content) && incoming_spec(content, false, false, attachments) is None,
{
    lemma_recoding_urls(attachments);
}

/// A recoding request made by the bot is taken by the video handler, which
/// recodes exactly the videos asked for, in order (URLs never hold a line
/// break), and reports the recoded copy of each of them, in the same order:
/// what follows the last `/` of its URL, then "-fixed.mp4".
pub proof fn lemma_recoding_request_roundtrip(urls: Seq<Seq<char>>)
    requires
        urls.len() >= 1,
        forall|i: int| 0 <= i < urls.len() ==> !(#[trigger] urls[i]).contains('\n'),
    ensures
        H264ify.answer(recoding_request(urls)) == Either::<RunnerView, MismatchView>::Left(
            RunnerView { service: "h264ify"@, name: "h264ify"@, job: JobView::Recode(urls) },
        ),
        recode_report(urls) matches OutputView::WithFiles(text, files, true) && text.len() == 0
            && files.len() == urls.len() && forall|i: int|
            0 <= i < urls.len() ==> #[trigger] files[i] == video_file_name_spec(urls[i])
                + "-fixed.mp4"@,
{
    let tag = "```h264ify"@;
    let j = join_spec(urls, "\n"@);
    let m = recoding_request(urls);
    let e: int = m.len() - fence().len();
    assert(m.subrange(0, tag.len() as int) =~= tag);
    assert(occurs_at(m, tag, 0));
    lemma_find_spec(m, tag);
    assert(find_spec(m, tag) == Some(0int));
    assert(m.subrange(e, e + fence().len()) =~= fence());
    assert(occurs_at(m, fence(), e));
    lemma_rfind_spec(m, fence());
    assert(rfind_spec(m, fence()) == Some(e));
    assert(m.subrange(tag.len() as int, e) =~= j);
    assert(fenced_block(m, tag) == Some(Some(j)));
    reveal_strlit("\n");
    assert("\n"@ =~= seq!['\n']);
    lemma_split_join(urls, '\n');
}

} // verus!
