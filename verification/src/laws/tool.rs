//! Laws on the `container` tool: what is asked of it and what its answers mean.
use crate::cli::decoded_entries;
use crate::cli::excerpt;
use crate::cli::excerpt_is_whole;
use crate::cli::excerpt_len;
use crate::cli::first_entry;
use crate::cli::interpret_process;
use crate::cli::is_decoded;
use crate::cli::is_first_entry;
use crate::cli::may_decode;
use crate::cli::may_parse;
use crate::cli::parse_container_entries;
use crate::cli::CliCommand;
use crate::cli::ContainerCli;
use crate::cli::ContainerCliError;
use crate::cli::ContainerEntry;
use crate::cli::ExecFailure;
use crate::cli::ProcessOutput;
use crate::laws::words::blank;
use crate::laws::words::holds_phrase;
use crate::laws::words::is_decimal;
use crate::laws::words::is_trim_of;
use crate::laws::words::lemma_blank;
use crate::laws::words::lemma_holds_phrase;
use crate::laws::words::lemma_is_decimal;
use crate::laws::words::lemma_is_trim_of;
use crate::text::decimal;
use crate::text::lossy_utf8;
use crate::text::signed_decimal;
use crate::text::texts;
use crate::text::trimmed;
use vstd::prelude::*;
use vstd::utf8::encode_utf8;

verus! {

/// Whether two errors of the tool are of the same kind and say the same.
pub open spec fn same_error(a: ContainerCliError, b: ContainerCliError) -> bool {
    match (a, b) {
        (ContainerCliError::Exec(x), ContainerCliError::Exec(y)) => x.not_found == y.not_found
            && x.message@ == y.message@,
        (
            ContainerCliError::NonZero { code, stderr },
            ContainerCliError::NonZero { code: c, stderr: s },
        ) => code == c && stderr@ == s@,
        (ContainerCliError::Parse(x), ContainerCliError::Parse(y)) => x@ == y@,
        (ContainerCliError::NotFound(x), ContainerCliError::NotFound(y)) => x@ == y@,
        (ContainerCliError::AlreadyExists(x), ContainerCliError::AlreadyExists(y)) => x@ == y@,
        _ => false,
    }
}

/// Whether the tool's complaint holds one of the phrases by which it says that a
/// container is missing.
pub open spec fn complains_of_absence(stderr: Seq<char>) -> bool {
    holds_phrase(stderr, "not found"@) || holds_phrase(stderr, "no such"@)
}

/// Whether `told` is what is made of the error `e` of a command on a container: a
/// complaint of absence becomes [`ContainerCliError::NotFound`], any other error
/// is handed on as it is.
pub open spec fn is_told_of(id: Seq<char>, e: ContainerCliError, told: ContainerCliError) -> bool {
    if e matches ContainerCliError::NonZero { code: _, stderr } && complains_of_absence(stderr@) {
        told matches ContainerCliError::NotFound(m) && m@ == id
    } else {
        same_error(told, e)
    }
}

/// A run that succeeded gives its output, whatever it complained of. One that
/// failed gives its complaint, trimmed: as [`ContainerCliError::AlreadyExists`] if
/// and only if it holds "already exists" or "already in use", else with the exit
/// code, which is -1 where a signal ended the run.
pub proof fn law_runs_are_told_by_success_and_complaint(
    success: bool,
    code: Option<i32>,
    stdout: String,
    stderr: String,
    res: Result<String, ContainerCliError>,
)
    requires
        call_ensures(interpret_process, (success, code, stdout, stderr), res),
    ensures
        success ==> (res matches Ok(out) && out@ == stdout@),
        !success && (holds_phrase(stderr@, "already exists"@) || holds_phrase(
            stderr@,
            "already in use"@,
        )) ==> (res matches Err(ContainerCliError::AlreadyExists(m)) && is_trim_of(m@, stderr@)),
        !success && !holds_phrase(stderr@, "already exists"@) && !holds_phrase(
            stderr@,
            "already in use"@,
        ) ==> (res matches Err(ContainerCliError::NonZero { code: c, stderr: m }) && is_trim_of(
            m@,
            stderr@,
        ) && match code {
            Some(given) => c == given,
            None => c == -1,
        }),
{
    lemma_holds_phrase(stderr@, "already exists"@);
    lemma_holds_phrase(stderr@, "already in use"@);
    lemma_is_trim_of(trimmed(stderr@), stderr@);
}

/// What a finished process wrote is read as text, standard output for success
/// and standard error for failure; a tool that could not be run is reported as
/// that.
pub proof fn law_process_output_is_read_as_text(
    outcome: Result<ProcessOutput, ExecFailure>,
    res: Result<String, ContainerCliError>,
)
    requires
        call_ensures(ContainerCli::run_args_result, (outcome,), res),
    ensures
        match outcome {
            Ok(p) => if p.success {
                res matches Ok(out) && out@ == lossy_utf8(p.stdout@)
            } else {
                let complaint = lossy_utf8(p.stderr@);
                if holds_phrase(complaint, "already exists"@) || holds_phrase(
                    complaint,
                    "already in use"@,
                ) {
                    res matches Err(ContainerCliError::AlreadyExists(m)) && is_trim_of(
                        m@,
                        complaint,
                    )
                } else {
                    res matches Err(ContainerCliError::NonZero { code: c, stderr: m })
                        && is_trim_of(m@, complaint) && (p.code matches Some(given) ==> c == given)
                        && (p.code is None ==> c == -1)
                }
            },
            Err(f) => res matches Err(ContainerCliError::Exec(g)) && g.not_found == f.not_found
                && g.message@ == f.message@,
        },
{
    if let Ok(p) = outcome {
        let complaint = lossy_utf8(p.stderr@);
        lemma_holds_phrase(complaint, "already exists"@);
        lemma_holds_phrase(complaint, "already in use"@);
        lemma_is_trim_of(trimmed(complaint), complaint);
    }
}

/// A container that the tool failed to stop counts as missing only if the tool
/// says so, in the whole phrase "not found" or the whole phrase "no such". Any
/// other failure is handed on as it is.
pub proof fn law_stop_tells_absence_by_whole_phrases(
    id: &str,
    run: Result<String, ContainerCliError>,
    res: Result<(), ContainerCliError>,
)
    requires
        call_ensures(ContainerCli::stop_result, (id, run), res),
    ensures
        run is Ok <==> res is Ok,
        run matches Err(e) ==> (res matches Err(told) && is_told_of(id@, e, told)),
{
    if let Err(ContainerCliError::NonZero { code, stderr }) = run {
        lemma_holds_phrase(stderr@, "not found"@);
        lemma_holds_phrase(stderr@, "no such"@);
    }
}

/// A container that the tool failed to remove counts as missing only if the tool
/// says so, in the whole phrase "not found" or the whole phrase "no such". Any
/// other failure is handed on as it is.
pub proof fn law_removal_tells_absence_by_whole_phrases(
    id: &str,
    run: Result<String, ContainerCliError>,
    res: Result<(), ContainerCliError>,
)
    requires
        call_ensures(ContainerCli::rm_result, (id, run), res),
    ensures
        run is Ok <==> res is Ok,
        run matches Err(e) ==> (res matches Err(told) && is_told_of(id@, e, told)),
{
    if let Err(ContainerCliError::NonZero { code, stderr }) = run {
        lemma_holds_phrase(stderr@, "not found"@);
        lemma_holds_phrase(stderr@, "no such"@);
    }
}

/// A container that the tool failed to inspect counts as missing only if the tool
/// says so, in the whole phrase "not found" or the whole phrase "no such". Any
/// other failure is handed on as it is.
pub proof fn law_inspection_tells_absence_by_whole_phrases<
    F: Fn(&str) -> Result<Vec<ContainerEntry>, String>,
>(
    id: &str,
    e: ContainerCliError,
    decode: F,
    res: Result<ContainerEntry, ContainerCliError>,
)
    requires
        call_ensures(
            ContainerCli::inspect_result::<F>,
            (id, Err::<String, ContainerCliError>(e), decode),
            res,
        ),
    ensures
        res matches Err(told) && is_told_of(id@, e, told),
{
    if let ContainerCliError::NonZero { code, stderr } = e {
        lemma_holds_phrase(stderr@, "not found"@);
        lemma_holds_phrase(stderr@, "no such"@);
    }
}

/// A container is run if the tool succeeded and printed more than white space,
/// and its ID is what was printed, trimmed. A failure is handed on as it is.
pub proof fn law_run_prints_the_container_id(
    run: Result<String, ContainerCliError>,
    res: Result<String, ContainerCliError>,
)
    requires
        call_ensures(ContainerCli::run_detached_result, (run,), res),
    ensures
        match run {
            Ok(out) => if blank(out@) {
                res matches Err(ContainerCliError::Parse(m)) && m@
                    == "container run returned empty ID"@
            } else {
                res matches Ok(id) && is_trim_of(id@, out@)
            },
            Err(e) => res matches Err(told) && same_error(told, e),
        },
{
    if let Ok(out) = run {
        lemma_blank(out@);
        lemma_is_trim_of(trimmed(out@), out@);
    }
}

/// The command that runs a container: the options follow the name, the image
/// follows the options, and the command to run in the container follows the
/// image.
pub proof fn law_run_command_line(
    cli: ContainerCli,
    image: &str,
    name: &str,
    options: Vec<String>,
    command: Vec<String>,
    res: CliCommand,
    i: int,
)
    requires
        call_ensures(ContainerCli::run_detached, (&cli, image, name, &options, &command), res),
    ensures
        res.bin@ == cli.bin@,
        res.args@.len() == 5 + options@.len() + command@.len(),
        res.args@[0]@ == "run"@,
        res.args@[1]@ == "-d"@,
        res.args@[2]@ == "--name"@,
        res.args@[3]@ == name@,
        0 <= i < options@.len() ==> res.args@[4 + i]@ == options@[i]@,
        res.args@[4 + options@.len() as int]@ == image@,
        0 <= i < command@.len() ==> res.args@[5 + options@.len() as int + i]@ == command@[i]@,
{
    let all = texts(res.args@);
    assert(all.len() == res.args@.len());
    assert forall|j: int| 0 <= j < all.len() implies all[j] == res.args@[j]@ by {}
    assert(all == seq!["run"@, "-d"@, "--name"@, name@] + texts(options@) + seq![image@] + texts(
        command@,
    ));
    assert(texts(options@).len() == options@.len());
    assert(texts(command@).len() == command@.len());
    assert(all[0] == "run"@ && all[1] == "-d"@ && all[2] == "--name"@ && all[3] == name@);
    assert(all[4 + options@.len() as int] == image@);
    if 0 <= i < options@.len() {
        assert(all[4 + i] == texts(options@)[i]);
    }
    if 0 <= i < command@.len() {
        assert(all[5 + options@.len() as int + i] == texts(command@)[i]);
    }
}

/// The command that stops a container: the seconds to wait, in decimal, and the
/// container.
pub proof fn law_stop_command_line(cli: ContainerCli, id: &str, timeout_secs: u32, res: CliCommand)
    requires
        call_ensures(ContainerCli::stop, (&cli, id, timeout_secs), res),
    ensures
        res.bin@ == cli.bin@,
        res.args@.len() == 4,
        res.args@[0]@ == "stop"@,
        res.args@[1]@ == "--time"@,
        is_decimal(res.args@[2]@, timeout_secs as int),
        res.args@[3]@ == id@,
{
    lemma_command_view(res);
    lemma_is_decimal(timeout_secs as nat);
}

/// A command in contracts is the command itself.
pub proof fn lemma_command_view(c: CliCommand)
    ensures
        c@.bin == c.bin@,
        c@.args.len() == c.args@.len(),
        forall|i: int| 0 <= i < c.args@.len() ==> c@.args[i] == #[trigger] c.args@[i]@,
{
}

/// The command that removes a container names it and nothing else.
pub proof fn law_rm_command_line(cli: ContainerCli, id: &str, res: CliCommand)
    requires
        call_ensures(ContainerCli::rm, (&cli, id), res),
    ensures
        res.bin@ == cli.bin@,
        res.args@.len() == 2,
        res.args@[0]@ == "rm"@,
        res.args@[1]@ == id@,
{
    lemma_command_view(res);
}

/// The container is given five seconds to stop before it is removed.
pub proof fn law_stop_before_rm_command_line(cli: ContainerCli, id: &str, res: CliCommand)
    requires
        call_ensures(ContainerCli::rm_stop, (&cli, id), res),
    ensures
        res.bin@ == cli.bin@,
        res.args@.len() == 4,
        res.args@[0]@ == "stop"@,
        res.args@[1]@ == "--time"@,
        is_decimal(res.args@[2]@, 5),
        res.args@[3]@ == id@,
{
    lemma_command_view(res);
    lemma_is_decimal(5);
}

/// All containers are listed, stopped ones with them, as JSON.
pub proof fn law_list_command_line(cli: ContainerCli, res: CliCommand)
    requires
        call_ensures(ContainerCli::list_all, (&cli,), res),
    ensures
        res.bin@ == cli.bin@,
        res.args@.len() == 4,
        res.args@[0]@ == "list"@,
        res.args@[1]@ == "--all"@,
        res.args@[2]@ == "--format"@,
        res.args@[3]@ == "json"@,
{
    lemma_command_view(res);
}

/// The tool is verified by a plain list.
pub proof fn law_verify_command_line(cli: ContainerCli, res: CliCommand)
    requires
        call_ensures(ContainerCli::verify, (&cli,), res),
    ensures
        res.bin@ == cli.bin@,
        res.args@.len() == 3,
        res.args@[0]@ == "list"@,
        res.args@[1]@ == "--format"@,
        res.args@[2]@ == "json"@,
{
    lemma_command_view(res);
}

/// A container is inspected by its name.
pub proof fn law_inspect_command_line(cli: ContainerCli, id: &str, res: CliCommand)
    requires
        call_ensures(ContainerCli::inspect, (&cli, id), res),
    ensures
        res.bin@ == cli.bin@,
        res.args@.len() == 2,
        res.args@[0]@ == "inspect"@,
        res.args@[1]@ == id@,
{
    lemma_command_view(res);
}

/// An image is pulled, and looked for, by its reference.
pub proof fn law_image_command_lines(
    cli: ContainerCli,
    image: &str,
    pull: CliCommand,
    look: CliCommand,
)
    requires
        call_ensures(ContainerCli::pull, (&cli, image), pull),
        call_ensures(ContainerCli::image_exists, (&cli, image), look),
    ensures
        pull.bin@ == cli.bin@,
        look.bin@ == cli.bin@,
        pull.args@.len() == 3,
        look.args@.len() == 3,
        pull.args@[0]@ == "image"@,
        look.args@[0]@ == "image"@,
        pull.args@[1]@ == "pull"@,
        look.args@[1]@ == "inspect"@,
        pull.args@[2]@ == image@,
        look.args@[2]@ == image@,
{
    lemma_command_view(pull);
    lemma_command_view(look);
}

/// An error of the tool reads as its kind, followed by what there is to say.
pub proof fn law_tool_errors_read(e: ContainerCliError, res: String)
    requires
        call_ensures(ContainerCliError::to_text, (&e,), res),
    ensures
        match e {
            ContainerCliError::Exec(f) => res@ == "container CLI execution failed: "@ + f.message@,
            ContainerCliError::NonZero { code, stderr } => exists|n: Seq<char>|
                res@ == "container CLI returned non-zero exit ("@ + n + "): "@ + stderr@
                    && #[trigger] is_signed_decimal(n, code as int),
            ContainerCliError::Parse(m) => res@ == "failed to parse container CLI output: "@ + m@,
            ContainerCliError::NotFound(m) => res@ == "container not found: "@ + m@,
            ContainerCliError::AlreadyExists(m) => res@ == "container already exists: "@ + m@,
        },
{
    if let ContainerCliError::NonZero { code, stderr } = e {
        lemma_is_signed_decimal(code as int);
        assert(is_signed_decimal(signed_decimal(code as int), code as int));
    }
}

/// Whether `s` is `n` in decimal, with a minus sign if it is negative.
pub open spec fn is_signed_decimal(s: Seq<char>, n: int) -> bool {
    if n < 0 {
        s.len() > 0 && s[0] == '-' && is_decimal(s.skip(1), -n)
    } else {
        is_decimal(s, n)
    }
}

/// Signed numbers are written in decimal.
pub proof fn lemma_is_signed_decimal(n: int)
    ensures
        is_signed_decimal(signed_decimal(n), n),
{
    if n < 0 {
        lemma_is_decimal((-n) as nat);
        assert(signed_decimal(n).skip(1) =~= decimal((-n) as nat));
    } else {
        lemma_is_decimal(n as nat);
    }
}

/// What the JSON decoder found is kept. What it could not read is quoted behind
/// its reason: the first 200 bytes, or all where there are fewer.
pub proof fn law_unreadable_output_is_quoted(
    payload: &str,
    answer: Result<Vec<ContainerEntry>, String>,
    res: Result<Vec<ContainerEntry>, ContainerCliError>,
)
    requires
        answer is Err ==> excerpt_is_whole(payload@),
        call_ensures(decoded_entries, (payload, answer), res),
    ensures
        answer matches Ok(entries) ==> res == Ok::<Vec<ContainerEntry>, ContainerCliError>(entries),
        answer matches Err(reason) ==> exists|quote: Seq<char>|
            {
                &&& res matches Err(ContainerCliError::Parse(m)) && m@ == reason@
                    + " (input starts with: "@ + quote + ")"@
                &&& encode_utf8(payload@).len() >= #[trigger] encode_utf8(quote).len()
                &&& encode_utf8(quote).len() == 200 || quote == payload@
                &&& encode_utf8(quote).len() <= 200
                &&& encode_utf8(quote) == encode_utf8(payload@).take(encode_utf8(quote).len() as int)
            },
{
    if let Err(reason) = answer {
        let bytes = encode_utf8(payload@);
        let n = excerpt_len(payload@);
        let quote = excerpt(payload@);
        vstd::utf8::encode_utf8_valid_utf8(payload@);
        vstd::utf8::valid_utf8_split(bytes, n);
        vstd::utf8::decode_utf8_encode_utf8(bytes.subrange(0, n));
        assert(encode_utf8(quote) == bytes.subrange(0, n));
        assert(bytes.subrange(0, n) =~= bytes.take(n));
        if n < 200 {
            assert(bytes.subrange(0, n) =~= bytes);
            vstd::utf8::encode_utf8_decode_utf8(payload@);
        }
    }
}

/// Whether `res` is what reading output gives that is `core` without the white
/// space around it. Nothing, an empty array and `null` list no containers. All
/// else is decoded, and the decoder's answer decides.
pub open spec fn is_read_from<F: Fn(&str) -> Result<Vec<ContainerEntry>, String>>(
    decode: F,
    core: Seq<char>,
    res: Result<Vec<ContainerEntry>, ContainerCliError>,
) -> bool {
    if core.len() == 0 || core == "[]"@ || core == "null"@ {
        res matches Ok(entries) && entries@.len() == 0
    } else {
        exists|s: &str, answer: Result<Vec<ContainerEntry>, String>|
            {
                &&& s@ == core
                &&& #[trigger] call_ensures(decode, (s,), answer)
                &&& match answer {
                    Ok(entries) => res == Ok::<Vec<ContainerEntry>, ContainerCliError>(entries),
                    Err(reason) => res matches Err(ContainerCliError::Parse(m)) && reason@.len()
                        <= m@.len() && m@.take(reason@.len() as int) == reason@,
                }
            }
    }
}

/// What may be parsed is what reading the output gives.
proof fn lemma_is_read_from<F: Fn(&str) -> Result<Vec<ContainerEntry>, String>>(
    decode: F,
    core: Seq<char>,
    output: Seq<char>,
    res: Result<Vec<ContainerEntry>, ContainerCliError>,
)
    requires
        is_trim_of(core, output),
        may_parse(decode, output, res),
    ensures
        is_read_from(decode, core, res),
{
    lemma_is_trim_of(core, output);
    if core.len() > 0 && core != "[]"@ && core != "null"@ {
        let answer = choose|answer: Result<Vec<ContainerEntry>, String>| #[trigger]
            may_decode(decode, core, answer) && is_decoded(core, answer, res);
        let s = choose|s: &str| s@ == core && #[trigger] call_ensures(decode, (s,), answer);
        if let (Err(reason), Err(ContainerCliError::Parse(m))) = (answer, res) {
            assert(m@.take(reason@.len() as int) =~= reason@);
        }
    }
}

/// The tool's output is read without the white space around it, and decoded
/// unless it says that there are no containers.
pub proof fn law_output_is_decoded_unless_empty<F: Fn(&str) -> Result<Vec<ContainerEntry>, String>>(
    output: &str,
    decode: F,
    core: Seq<char>,
    res: Result<Vec<ContainerEntry>, ContainerCliError>,
)
    requires
        call_ensures(parse_container_entries::<F>, (output, decode), res),
        is_trim_of(core, output@),
    ensures
        is_read_from(decode, core, res),
{
    lemma_is_read_from(decode, core, output@, res);
}

/// A list is what the tool's output reads as.
pub proof fn law_list_is_read_from_the_output<F: Fn(&str) -> Result<Vec<ContainerEntry>, String>>(
    output: String,
    decode: F,
    core: Seq<char>,
    res: Result<Vec<ContainerEntry>, ContainerCliError>,
)
    requires
        call_ensures(
            ContainerCli::list_all_result::<F>,
            (Ok::<String, ContainerCliError>(output), decode),
            res,
        ),
        is_trim_of(core, output@),
    ensures
        is_read_from(decode, core, res),
{
    lemma_is_read_from(decode, core, output@, res);
}

/// An inspected container is the first that the tool's output reads as.
pub proof fn law_inspection_is_read_from_the_output<
    F: Fn(&str) -> Result<Vec<ContainerEntry>, String>,
>(
    id: &str,
    output: String,
    decode: F,
    core: Seq<char>,
    res: Result<ContainerEntry, ContainerCliError>,
)
    requires
        call_ensures(
            ContainerCli::inspect_result::<F>,
            (id, Ok::<String, ContainerCliError>(output), decode),
            res,
        ),
        is_trim_of(core, output@),
    ensures
        exists|parsed: Result<Vec<ContainerEntry>, ContainerCliError>|
            {
                &&& #[trigger] is_read_from(decode, core, parsed)
                &&& match parsed {
                    Ok(entries) => if entries@.len() > 0 {
                        res == Ok::<ContainerEntry, ContainerCliError>(entries@[0])
                    } else {
                        res matches Err(ContainerCliError::NotFound(m)) && m@ == id@
                    },
                    Err(e) => res == Err::<ContainerEntry, ContainerCliError>(e),
                }
            },
{
    let parsed = choose|parsed: Result<Vec<ContainerEntry>, ContainerCliError>| #[trigger]
        may_parse(decode, output@, parsed) && is_first_entry(id@, parsed, res);
    lemma_is_read_from(decode, core, output@, parsed);
}

/// A container is the first in the output of its inspection; output without any
/// means that it is missing.
pub proof fn law_inspection_gives_the_first_container(
    id: &str,
    parsed: Result<Vec<ContainerEntry>, ContainerCliError>,
    res: Result<ContainerEntry, ContainerCliError>,
)
    requires
        call_ensures(first_entry, (id, parsed), res),
    ensures
        match parsed {
            Ok(entries) => if entries@.len() > 0 {
                res == Ok::<ContainerEntry, ContainerCliError>(entries@[0])
            } else {
                res matches Err(ContainerCliError::NotFound(m)) && m@ == id@
            },
            Err(e) => res == Err::<ContainerEntry, ContainerCliError>(e),
        },
{
}

/// A failure to list is handed on as it is.
pub proof fn law_listing_hands_failures_on<F: Fn(&str) -> Result<Vec<ContainerEntry>, String>>(
    e: ContainerCliError,
    decode: F,
    res: Result<Vec<ContainerEntry>, ContainerCliError>,
)
    requires
        call_ensures(
            ContainerCli::list_all_result::<F>,
            (Err::<String, ContainerCliError>(e), decode),
            res,
        ),
    ensures
        res == Err::<Vec<ContainerEntry>, ContainerCliError>(e),
{
}

} // verus!
