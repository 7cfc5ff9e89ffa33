//! Transcoding by an `ffmpeg` process.
use vstd::prelude::*;
use vstd::string::StringExecFns;

use crate::text::{push_text, text_views};

verus! {

/// How long to rest before the process is started again.
pub const REST_MILLIS: u64 = 1000;

/// The program that is run.
pub open spec fn program() -> Seq<char> {
    "ffmpeg"@
}

/// The arguments that make it read a camera and send RTP to an address.
pub open spec fn arguments(camera: Seq<char>, stream: Seq<char>) -> Seq<Seq<char>> {
    seq![
        "-timeout"@,
        "5000000"@,
        "-rtsp_transport"@,
        "tcp"@,
        "-i"@,
        camera,
        "-an"@,
        "-c:v"@,
        "libx264"@,
        "-preset"@,
        "ultrafast"@,
        "-tune"@,
        "zerolatency"@,
        "-r"@,
        "15"@,
        "-g"@,
        "1"@,
        "-pkt_size"@,
        "1200"@,
        "-f"@,
        "rtp"@,
        "rtp://"@ + stream,
    ]
}

/// The arguments that make `ffmpeg` read a camera and send RTP to an address.
pub fn command_arguments(camera: &str, stream: &str) -> (args: Vec<String>)
    ensures
        text_views(args@) == arguments(camera@, stream@),
{
    let mut target = String::new();
    target.append("rtp://");
    target.append(stream);
    let mut args: Vec<String> = Vec::new();
    push_text(&mut args, "-timeout");
    push_text(&mut args, "5000000");
    push_text(&mut args, "-rtsp_transport");
    push_text(&mut args, "tcp");
    push_text(&mut args, "-i");
    push_text(&mut args, camera);
    push_text(&mut args, "-an");
    push_text(&mut args, "-c:v");
    push_text(&mut args, "libx264");
    push_text(&mut args, "-preset");
    push_text(&mut args, "ultrafast");
    push_text(&mut args, "-tune");
    push_text(&mut args, "zerolatency");
    push_text(&mut args, "-r");
    push_text(&mut args, "15");
    push_text(&mut args, "-g");
    push_text(&mut args, "1");
    push_text(&mut args, "-pkt_size");
    push_text(&mut args, "1200");
    push_text(&mut args, "-f");
    push_text(&mut args, "rtp");
    push_text(&mut args, target.as_str());
    assert("rtp://"@ + stream@ =~= Seq::<char>::empty() + "rtp://"@ + stream@);
    assert(text_views(args@) =~= arguments(camera@, stream@));
    args
}

/// Where the process stands.
pub enum Turn {
    /// It has never run.
    Started,
    /// It has exited.
    Exited,
    /// The rest is over.
    Rested,
}

/// What happens next.
pub enum Task {
    /// Run the program until it exits, without its output.
    Spawn { program: String, args: Vec<String> },
    /// Rest.
    Rest { millis: u64 },
}

/// Runs `ffmpeg` forever: the program, a rest of a second, and the program again, whatever its
/// exit status was.
pub fn run(camera: &str, stream: &str, turn: Turn) -> (task: Task)
    ensures
        match turn {
            Turn::Exited => task == (Task::Rest { millis: REST_MILLIS }),
            _ => task matches Task::Spawn { program: name, args } && name@ == program()
                && text_views(args@) == arguments(camera@, stream@),
        },
{
    match turn {
        Turn::Exited => Task::Rest { millis: REST_MILLIS },
        _ => Task::Spawn {
            program: "ffmpeg".to_owned(),
            args: command_arguments(camera, stream),
        },
    }
}

} // verus!
