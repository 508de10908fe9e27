//! The pieces of a dispatched job that are decided rather than performed:
//! file names and program arguments for recoding videos, the address that
//! renders a formula, and the outputs that the jobs report.

use vstd::prelude::*;

use crate::runner::{OutputView, RunnerOutput};
use crate::text::{chars_of, lemma_rfind_spec, occurs_at, rfind, rfind_spec, string_of_range};

verus! {

/// The name a downloaded video is saved under: what follows the last `/` of
/// its URL, or the whole URL if it has none.
pub open spec fn video_file_name_spec(url: Seq<char>) -> Seq<char> {
    match rfind_spec(url, "/"@) {
        Some(i) => url.skip(i + 1),
        None => url,
    }
}

/// The name a downloaded video is saved under.
pub fn video_file_name(url: &str) -> (r: String)
    ensures
        r@ == video_file_name_spec(url@),
{
    let v = chars_of(url);
    let slash = chars_of("/");
    proof {
        lemma_rfind_spec(v@, slash@);
        reveal_strlit("/");
    }
    match rfind(&v, &slash) {
        Some(i) => {
            assert(occurs_at(v@, slash@, i as int) && slash@.len() == 1);
            assert(i + 1 <= v@.len() && v@.len() == v.len());
            assert(v@.subrange(i + 1, v.len() as int) =~= v@.skip(i + 1));
            string_of_range(&v, i + 1, v.len())
        },
        None => url.to_owned(),
    }
}

/// The name of the recoded copy of the video saved as `file`.
pub fn recoded_file_name(file: &str) -> (r: String)
    ensures
        r@ == file@ + "-fixed.mp4"@,
{
    let mut r = file.to_owned();
    r.append("-fixed.mp4");
    r
}

/// The arguments to `ffmpeg` that recode the video saved as `file` to h264
/// (baseline profile, level 3.0, yuv420p), into its recoded copy.
pub fn ffmpeg_arguments(file: &str) -> (r: Vec<String>)
    ensures
        r.deep_view() == seq![
            "-i"@,
            file@,
            "-vcodec"@,
            "libx264"@,
            "-vprofile"@,
            "baseline"@,
            "-level"@,
            "3.0"@,
            "-pix_fmt"@,
            "yuv420p"@,
            file@ + "-fixed.mp4"@,
        ],
{
    let r = vec![
        "-i".to_owned(),
        file.to_owned(),
        "-vcodec".to_owned(),
        "libx264".to_owned(),
        "-vprofile".to_owned(),
        "baseline".to_owned(),
        "-level".to_owned(),
        "3.0".to_owned(),
        "-pix_fmt".to_owned(),
        "yuv420p".to_owned(),
        recoded_file_name(file),
    ];
    assert(r.deep_view() =~= seq![
        "-i"@,
        file@,
        "-vcodec"@,
        "libx264"@,
        "-vprofile"@,
        "baseline"@,
        "-level"@,
        "3.0"@,
        "-pix_fmt"@,
        "yuv420p"@,
        file@ + "-fixed.mp4"@,
    ]);
    r
}

/// The recoded copy that the video at `url` ends up as.
pub open spec fn recoded_copy(url: Seq<char>) -> Seq<char> {
    video_file_name_spec(url) + "-fixed.mp4"@
}

/// What recoding the videos at `urls` reports: the recoded copy of each, in
/// order, to be deleted once sent.
pub open spec fn recode_report(urls: Seq<Seq<char>>) -> OutputView {
    OutputView::WithFiles(Seq::empty(), urls.map_values(|u: Seq<char>| recoded_copy(u)), true)
}

/// What recoding the videos at `urls` reports once each has been converted.
pub fn recode_output(urls: &Vec<String>) -> (r: RunnerOutput)
    ensures
        r@ == recode_report(urls.deep_view()),
{
    let mut files: Vec<String> = Vec::new();
    let mut i: usize = 0;
    while i < urls.len()
        invariant
            i <= urls.len(),
            files.deep_view() == urls.deep_view().take(i as int).map_values(
                |u: Seq<char>| recoded_copy(u),
            ),
        decreases urls.len() - i,
    {
        let name = video_file_name(urls[i].as_str());
        let copy = recoded_file_name(name.as_str());
        let ghost before = files.deep_view();
        files.push(copy);
        proof {
            assert(urls.deep_view()[i as int] == urls[i as int]@);
            assert(files.deep_view() =~= before.push(recoded_copy(urls.deep_view()[i as int])));
            assert(urls.deep_view().take(i + 1) =~= urls.deep_view().take(i as int).push(
                urls.deep_view()[i as int],
            ));
            assert(files.deep_view() =~= urls.deep_view().take(i + 1).map_values(
                |u: Seq<char>| recoded_copy(u),
            ));
        }
        i += 1;
    }
    assert(urls.deep_view().take(urls.len() as int) =~= urls.deep_view());
    RunnerOutput::WithFiles(String::new(), files, true)
}

/// The address that renders `latex` as a 300 dpi PNG image.
pub fn latex_url(latex: &str) -> (r: String)
    ensures
        r@ == "https://latex.codecogs.com/png.latex?\\dpi{300} "@ + latex@,
{
    let mut r = "https://latex.codecogs.com/png.latex?\\dpi{300} ".to_owned();
    r.append(latex);
    r
}

/// What rendering reports when the server answers with an unsuccessful `status`.
pub fn latex_failure(status: &str) -> (r: RunnerOutput)
    ensures
        r@ == OutputView::WithError("Failed"@, "Failed to get image, status: "@ + status@),
{
    let mut e = "Failed to get image, status: ".to_owned();
    e.append(status);
    RunnerOutput::WithError("Failed".to_owned(), e)
}

/// What rendering reports once the image is saved at `path`: the image, to be
/// deleted once sent.
pub fn latex_output(path: String) -> (r: RunnerOutput)
    ensures
        r@ == OutputView::WithFiles(Seq::empty(), seq![path@], true),
{
    let files = vec![path];
    assert(files.deep_view() =~= seq![files[0]@]);
    RunnerOutput::WithFiles(String::new(), files, true)
}

/// Where the meme is saved.
pub open spec fn meme_file() -> Seq<char> {
    "test.png"@
}

/// What the meme reports: the image, which is kept.
pub fn meme_output() -> (r: RunnerOutput)
    ensures
        r@ == OutputView::WithFiles(Seq::empty(), seq![meme_file()], false),
{
    let files = vec!["test.png".to_owned()];
    assert(files.deep_view() =~= seq![meme_file()]);
    RunnerOutput::WithFiles(String::new(), files, false)
}

/// What echoing reports: the text itself.
pub fn echo_output(text: String) -> (r: RunnerOutput)
    ensures
        r@ == OutputView::Output(text@),
{
    RunnerOutput::Output(text)
}

/// A video is saved under the last part of its URL: a name without `/`
/// that the URL ends with, right after its last `/` if it has one, and the
/// whole URL if it has none.
pub proof fn lemma_video_file_name(url: Seq<char>)
    ensures
        forall|k: int|
            0 <= k < video_file_name_spec(url).len() ==> #[trigger] video_file_name_spec(url)[k] != '/',
        video_file_name_spec(url).len() <= url.len(),
        url.skip(url.len() - video_file_name_spec(url).len()) == video_file_name_spec(url),
        video_file_name_spec(url).len() < url.len() ==> url[url.len() - video_file_name_spec(url).len()
            - 1] == '/',
{
    lemma_rfind_spec(url, "/"@);
    reveal_strlit("/");
    match rfind_spec(url, "/"@) {
        Some(i) => {
            let n = url.skip(i + 1);
            assert(url.subrange(i, i + 1) == "/"@);
            assert(url[i] == url.subrange(i, i + 1)[0]);
            assert forall|k: int| 0 <= k < n.len() implies #[trigger] n[k] != '/' by {
                assert(n[k] == url[i + 1 + k]);
                if url[i + 1 + k] == '/' {
                    assert(url.subrange(i + 1 + k, i + 2 + k) =~= "/"@);
                    assert(occurs_at(url, "/"@, i + 1 + k));
                }
            }
            assert(url.skip(url.len() - n.len()) =~= n);
        },
        None => {
            assert forall|k: int| 0 <= k < url.len() implies #[trigger] url[k] != '/' by {
                if url[k] == '/' {
                    assert(url.subrange(k, k + 1) =~= "/"@);
                    assert(occurs_at(url, "/"@, k));
                }
            }
            assert(url.skip(0) =~= url);
        },
    }
}

/// Recoding reports one file per video, in the order of the URLs: the
/// name the video was saved under, then "-fixed.mp4"; the files are to be
/// deleted once sent, and no text comes with them.
pub proof fn lemma_recode_report(urls: Seq<Seq<char>>)
    ensures
        recode_report(urls) matches OutputView::WithFiles(text, files, true) && text.len() == 0
            && files.len() == urls.len() && forall|i: int|
            0 <= i < urls.len() ==> #[trigger] files[i] == video_file_name_spec(urls[i]) + "-fixed.mp4"@,
{
}

} // verus!
