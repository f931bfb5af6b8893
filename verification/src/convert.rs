//! Converting the downloaded segments to one MP4 file with `ffmpeg`.

use vstd::prelude::*;
use vstd::string::*;

use crate::location::texts;
use crate::playlist::M3U8_FILENAME;
use crate::request::RequestData;
use crate::save_path::{is_entry_path, is_plain_name, join_path};

verus! {

/// The name of the converted file.
pub const OUTPUT_FILENAME: &'static str = "output.mp4";

/// The arguments with which `ffmpeg` converts the playlist at `m3u8_path` to the
/// file at `output_path`.
pub open spec fn ffmpeg_args(m3u8_path: Seq<char>, output_path: Seq<char>) -> Seq<Seq<char>> {
    seq![
        "-allowed_extensions"@,
        "ALL"@,
        "-i"@,
        m3u8_path,
        "-c"@,
        "copy"@,
        output_path,
    ]
}

/// The arguments with which the playlist in the directory `save_path` is
/// converted to a file in that directory.
pub open spec fn are_convert_args(save_path: Seq<char>, args: Seq<Seq<char>>) -> bool {
    &&& args.len() == 7
    &&& args == ffmpeg_args(args[3], args[6])
    &&& is_entry_path(save_path, M3U8_FILENAME@, args[3])
    &&& is_entry_path(save_path, OUTPUT_FILENAME@, args[6])
}

/// How the attempt to run `ffmpeg` ended.
#[derive(Debug)]
pub enum FfmpegRun {
    /// There is no such command.
    NotFound,
    /// It could not be run; holds why.
    Failed(String),
    /// It ran, and succeeded or not.
    Exited(bool),
}

/// What comes of a conversion.
#[derive(Debug)]
pub struct Conversion {
    /// What the window shows.
    pub message: String,
    /// Whether the local playlist is deleted.
    pub delete_playlist: bool,
    /// The names of the downloaded files that are deleted, in order.
    pub delete_segments: Vec<String>,
}

/// What the window shows after a conversion.
pub open spec fn conversion_message(run: FfmpegRun, is_delete_segment: bool) -> Seq<char> {
    match run {
        FfmpegRun::NotFound => "An error occurred: Cannot find the ffmpeg command"@,
        FfmpegRun::Failed(e) => e@,
        FfmpegRun::Exited(false) => "Failed to convert MP4"@,
        FfmpegRun::Exited(true) => if is_delete_segment {
            "Successfully converted to MP4!"@ + " And deleted the segments!"@
        } else {
            "Successfully converted to MP4!"@
        },
    }
}

/// Whether the local playlist and what was downloaded are deleted after a
/// conversion: if it succeeded and the user asked for that.
pub open spec fn deletes(run: FfmpegRun, is_delete_segment: bool) -> bool {
    run == FfmpegRun::Exited(true) && is_delete_segment
}

/// The arguments with which `ffmpeg` converts the playlist at `m3u8_path` to the
/// file at `output_path`.
pub fn convert_args(m3u8_path: String, output_path: String) -> (res: Vec<String>)
    ensures
        texts(res@) == ffmpeg_args(m3u8_path@, output_path@),
        res@.len() == 7,
        res@[0]@ == "-allowed_extensions"@ && res@[1]@ == "ALL"@,
        res@[2]@ == "-i"@ && res@[3]@ == m3u8_path@,
        res@[4]@ == "-c"@ && res@[5]@ == "copy"@,
        res@[6]@ == output_path@,
{
    let res: Vec<String> = vec![
        "-allowed_extensions".to_owned(),
        "ALL".to_owned(),
        "-i".to_owned(),
        m3u8_path,
        "-c".to_owned(),
        "copy".to_owned(),
        output_path,
    ];
    assert(texts(res@) =~= ffmpeg_args(m3u8_path@, output_path@));
    res
}

/// The arguments with which `ffmpeg` converts what is asked for; none where no
/// conversion is asked for.
pub fn request_convert_args(request: &RequestData) -> (res: Vec<String>)
    ensures
        if request.is_convert {
            are_convert_args(request.save_path@, texts(res@))
        } else {
            res@.len() == 0
        },
        res@.len() > 0 <==> request.is_convert,
        request.is_convert ==> res@[2]@ == "-i"@ && is_entry_path(
            request.save_path@,
            "index.m3u8"@,
            res@[3]@,
        ) && is_entry_path(request.save_path@, "output.mp4"@, res@[6]@),
{
    if !request.is_convert {
        return Vec::new();
    }
    proof {
        reveal_strlit("index.m3u8");
        reveal_strlit("output.mp4");
        reveal_strlit(".");
        reveal_strlit("..");
        assert("."@.len() == 1 && ".."@.len() == 2);
        assert(M3U8_FILENAME@.len() == 10 && OUTPUT_FILENAME@.len() == 10);
        assert(is_plain_name(M3U8_FILENAME@));
        assert(is_plain_name(OUTPUT_FILENAME@));
    }
    let m3u8_path = join_path(request.save_path.as_str(), M3U8_FILENAME);
    let output_path = join_path(request.save_path.as_str(), OUTPUT_FILENAME);
    let res = convert_args(m3u8_path, output_path);
    assert(texts(res@)[3] == res@[3]@ && texts(res@)[6] == res@[6]@);
    res
}

/// What comes of a conversion, given how the attempt to run `ffmpeg` ended. Files
/// are deleted only after a conversion that succeeded, and only if the user asked
/// for it; then the playlist is and each downloaded file.
pub fn convert_and_delete(
    run: FfmpegRun,
    is_delete_segment: bool,
    downloaded_files: Vec<String>,
) -> (res: Conversion)
    ensures
        res.message@ == conversion_message(run, is_delete_segment),
        res.delete_playlist == deletes(run, is_delete_segment),
        res.delete_segments@ == if deletes(run, is_delete_segment) {
            downloaded_files@
        } else {
            Seq::empty()
        },
        res.delete_playlist || res.delete_segments@.len() > 0 ==> run == FfmpegRun::Exited(true)
            && is_delete_segment,
        run == FfmpegRun::Exited(true) && is_delete_segment ==> res.delete_playlist
            && res.delete_segments@ == downloaded_files@,
        match run {
            FfmpegRun::NotFound => res.message@
                == "An error occurred: Cannot find the ffmpeg command"@,
            FfmpegRun::Failed(why) => res.message@ == why@,
            FfmpegRun::Exited(false) => res.message@ == "Failed to convert MP4"@,
            FfmpegRun::Exited(true) => res.message@ == "Successfully converted to MP4!"@ + (
            if is_delete_segment {
                " And deleted the segments!"@
            } else {
                Seq::empty()
            }),
        },
{
    let message = match run {
        FfmpegRun::NotFound => "An error occurred: Cannot find the ffmpeg command".to_owned(),
        FfmpegRun::Failed(e) => e,
        FfmpegRun::Exited(success) => {
            if success {
                let mut message = "Successfully converted to MP4!".to_owned();
                if is_delete_segment {
                    message.append(" And deleted the segments!");
                    return Conversion {
                        message,
                        delete_playlist: true,
                        delete_segments: downloaded_files,
                    };
                }
                message
            } else {
                "Failed to convert MP4".to_owned()
            }
        },
    };
    Conversion { message, delete_playlist: false, delete_segments: Vec::new() }
}

// ---------------------------------------------------------------------------
// Laws
// ---------------------------------------------------------------------------
/// Nothing that was downloaded is deleted unless `ffmpeg` ran and succeeded, and
/// the user asked for it; then everything is.
pub proof fn law_only_a_successful_conversion_deletes(run: FfmpegRun, is_delete_segment: bool)
    ensures
        deletes(run, is_delete_segment) ==> is_delete_segment && run is Exited && run->Exited_0,
        !is_delete_segment ==> !deletes(run, is_delete_segment),
        run is NotFound || run is Failed || run == FfmpegRun::Exited(false) ==> !deletes(
            run,
            is_delete_segment,
        ),
        deletes(FfmpegRun::Exited(true), true),
{
}

/// The user is told of a deletion exactly where there is one, after the success;
/// a failure is told of in the same words whether or not a deletion was asked for.
pub proof fn law_conversion_is_told_of(run: FfmpegRun, why: String)
    ensures
        conversion_message(FfmpegRun::Exited(true), false) == "Successfully converted to MP4!"@,
        conversion_message(FfmpegRun::Exited(true), true) == "Successfully converted to MP4!"@
            + " And deleted the segments!"@,
        conversion_message(FfmpegRun::Exited(false), true) == "Failed to convert MP4"@,
        conversion_message(FfmpegRun::NotFound, true)
            == "An error occurred: Cannot find the ffmpeg command"@,
        conversion_message(FfmpegRun::Failed(why), true) == why@,
        run != FfmpegRun::Exited(true) ==> conversion_message(run, true) == conversion_message(
            run,
            false,
        ),
{
}

/// `ffmpeg` reads the playlist, copies the streams, and writes the output, which
/// comes last; all files that the playlist names are allowed.
pub proof fn law_conversion_reads_and_copies(m3u8_path: Seq<char>, output_path: Seq<char>)
    ensures
        ({
            let args = ffmpeg_args(m3u8_path, output_path);
            &&& args.len() == 7
            &&& args[0] == "-allowed_extensions"@ && args[1] == "ALL"@
            &&& args[2] == "-i"@ && args[3] == m3u8_path
            &&& args[4] == "-c"@ && args[5] == "copy"@
            &&& args[6] == output_path
        }),
{
}

/// What is converted is the playlist `index.m3u8` of the directory, and what comes
/// of it is `output.mp4` in the same directory.
pub proof fn law_conversion_stays_in_its_directory(save_path: Seq<char>, args: Seq<Seq<char>>)
    requires
        are_convert_args(save_path, args),
    ensures
        args.len() == 7,
        args[0] == "-allowed_extensions"@ && args[1] == "ALL"@,
        args[2] == "-i"@ && is_entry_path(save_path, "index.m3u8"@, args[3]),
        args[4] == "-c"@ && args[5] == "copy"@,
        is_entry_path(save_path, "output.mp4"@, args[6]),
{
    law_conversion_reads_and_copies(args[3], args[6]);
}

} // verus!
