//! The ffmpeg command that cuts a clip out of a finished file.
use vstd::prelude::*;
use crate::jobs::{format_cmd, format_cmd_spec};
use crate::text::{owned, text_eq, views};

verus! {

/// The cut command: seek to `start` (and stop at `end`, if given) in `src`,
/// write `dst`; anything but the `precise` mode copies the streams without
/// re-encoding.
pub open spec fn cut_command_spec(
    ffmpeg: Seq<char>,
    src: Seq<char>,
    dst: Seq<char>,
    start: Seq<char>,
    end: Option<Seq<char>>,
    mode: Seq<char>,
) -> Seq<Seq<char>> {
    seq![ffmpeg, "-nostdin"@, "-hide_banner"@, "-y"@, "-ss"@, start] + match end {
        Some(e) => seq!["-to"@, e],
        None => Seq::empty(),
    } + seq!["-i"@, src] + if mode != "precise"@ {
        seq!["-c"@, "copy"@, "-avoid_negative_ts"@, "make_zero"@]
    } else {
        Seq::empty()
    } + seq![dst]
}

fn push_str(v: &mut Vec<String>, s: &str)
    ensures
        views(final(v)@) == views(old(v)@).push(s@),
{
    let ghost before = v@;
    let t = owned(s);
    v.push(t);
    proof {
        crate::text::lemma_views_push(before, t);
    }
}

/// The ffmpeg command that cuts `src` into `dst` (see `cut_command_spec`).
pub fn cut_command(ffmpeg: &str, src: &str, dst: &str, start: &str, end: Option<&str>, mode: &str) -> (r: Vec<String>)
    ensures
        views(r@) == cut_command_spec(
            ffmpeg@,
            src@,
            dst@,
            start@,
            match end {
                Some(e) => Some(e@),
                None => None,
            },
            mode@,
        ),
{
    let mut cmd: Vec<String> = Vec::new();
    push_str(&mut cmd, ffmpeg);
    push_str(&mut cmd, "-nostdin");
    push_str(&mut cmd, "-hide_banner");
    push_str(&mut cmd, "-y");
    push_str(&mut cmd, "-ss");
    push_str(&mut cmd, start);
    let ghost a = views(cmd@);
    match end {
        Some(e) => {
            push_str(&mut cmd, "-to");
            push_str(&mut cmd, e);
        },
        None => {},
    }
    let ghost b = views(cmd@);
    push_str(&mut cmd, "-i");
    push_str(&mut cmd, src);
    let ghost c = views(cmd@);
    let precise = text_eq(mode, "precise");
    if !precise {
        push_str(&mut cmd, "-c");
        push_str(&mut cmd, "copy");
        push_str(&mut cmd, "-avoid_negative_ts");
        push_str(&mut cmd, "make_zero");
    }
    let ghost d = views(cmd@);
    push_str(&mut cmd, dst);
    proof {
        let ev = match end {
            Some(e) => Some(e@),
            None => None,
        };
        assert(a =~= seq![ffmpeg@, "-nostdin"@, "-hide_banner"@, "-y"@, "-ss"@, start@]);
        assert(b =~= a + match ev {
            Some(e) => seq!["-to"@, e],
            None => Seq::<Seq<char>>::empty(),
        });
        assert(c =~= b + seq!["-i"@, src@]);
        assert(d =~= c + if mode@ != "precise"@ {
            seq!["-c"@, "copy"@, "-avoid_negative_ts"@, "make_zero"@]
        } else {
            Seq::<Seq<char>>::empty()
        });
        assert(views(cmd@) =~= cut_command_spec(ffmpeg@, src@, dst@, start@, ev, mode@));
    }
    cmd
}

/// The display form of a command line.
pub fn display(cmd: &Vec<String>) -> (r: String)
    ensures
        r@ == format_cmd_spec(views(cmd@)),
{
    format_cmd(cmd)
}

} // verus!
