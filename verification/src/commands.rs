//! The WSL commands that installing consists of, and what their failures mean.
use crate::text;
use vstd::prelude::*;

verus! {

/// The outcome of a WSL command.
#[derive(Debug, PartialEq, Eq)]
pub struct CommandResult {
    pub success: bool,
    pub output: String,
    pub error: Option<String>,
}

/// The mathematical content of a command's outcome.
pub struct CommandResultView {
    pub success: bool,
    pub output: Seq<char>,
    pub error: Option<Seq<char>>,
}

impl View for CommandResult {
    type V = CommandResultView;

    open spec fn view(&self) -> CommandResultView {
        CommandResultView {
            success: self.success,
            output: self.output@,
            error: text::opt_view(self.error),
        }
    }
}

/// One argument where a condition holds, none where it does not.
pub open spec fn only_if(condition: bool, argument: Seq<char>) -> Seq<Seq<char>> {
    if condition {
        seq![argument]
    } else {
        Seq::empty()
    }
}

/// The arguments that install a distribution of the Store under a name, at a
/// path if one is given.
pub open spec fn direct_install_args(
    store_id: Seq<char>,
    name: Seq<char>,
    target_path: Seq<char>,
    web_download: bool,
) -> Seq<Seq<char>> {
    seq!["--install"@, store_id, "--name"@, name] + (if target_path.len() > 0 {
        seq!["--location"@, target_path]
    } else {
        Seq::empty()
    }) + seq!["--no-launch"@] + only_if(web_download, "--web-download"@)
}

/// The arguments that install a distribution of the Store as it comes.
pub open spec fn seed_install_args(store_id: Seq<char>, web_download: bool) -> Seq<Seq<char>> {
    seq!["--install"@, "-d"@, store_id, "--no-launch"@] + only_if(web_download, "--web-download"@)
}

/// The arguments that write a distribution to an archive.
pub open spec fn export_args(store_id: Seq<char>, archive_path: Seq<char>) -> Seq<Seq<char>> {
    seq!["--export"@, store_id, archive_path]
}

/// The arguments that remove a distribution.
pub open spec fn unregister_args(store_id: Seq<char>) -> Seq<Seq<char>> {
    seq!["--unregister"@, store_id]
}

/// The arguments that make a distribution from a file.
pub open spec fn import_args(
    name: Seq<char>,
    target_path: Seq<char>,
    file_path: Seq<char>,
    vhd: bool,
) -> Seq<Seq<char>> {
    seq!["--import"@, name, target_path, file_path] + only_if(vhd, "--vhd"@)
}

/// A command as it would be typed.
pub open spec fn command_line(args: Seq<Seq<char>>) -> Seq<char> {
    "wsl "@ + text::spaced(args)
}

/// Appends a text to a list.
fn append(list: &mut Vec<String>, item: &str)
    ensures
        text::views(final(list)@) == text::views(old(list)@).push(item@),
{
    let owned = item.to_owned();
    list.push(owned);
    assert(text::views(list@) =~= text::views(old(list)@).push(item@));
}

/// An empty list of arguments.
fn no_args() -> (list: Vec<String>)
    ensures
        text::views(list@) == Seq::<Seq<char>>::empty(),
{
    let list: Vec<String> = Vec::new();
    assert(text::views(list@) =~= Seq::<Seq<char>>::empty());
    list
}

/// The command that installs a distribution of the Store under a name.
pub fn direct_install_command(
    store_id: &str,
    name: &str,
    target_path: &str,
    web_download: bool,
) -> (args: Vec<String>)
    ensures
        text::views(args@) == direct_install_args(store_id@, name@, target_path@, web_download),
{
    let mut args = no_args();
    append(&mut args, "--install");
    append(&mut args, store_id);
    append(&mut args, "--name");
    append(&mut args, name);
    if !target_path.is_empty() {
        append(&mut args, "--location");
        append(&mut args, target_path);
    }
    append(&mut args, "--no-launch");
    if web_download {
        append(&mut args, "--web-download");
    }
    assert(text::views(args@) =~= direct_install_args(store_id@, name@, target_path@, web_download));
    args
}

/// The command that installs a distribution of the Store as it comes.
pub fn seed_install_command(store_id: &str, web_download: bool) -> (args: Vec<String>)
    ensures
        text::views(args@) == seed_install_args(store_id@, web_download),
{
    let mut args = no_args();
    append(&mut args, "--install");
    append(&mut args, "-d");
    append(&mut args, store_id);
    append(&mut args, "--no-launch");
    if web_download {
        append(&mut args, "--web-download");
    }
    assert(text::views(args@) =~= seed_install_args(store_id@, web_download));
    args
}

/// The command that writes a distribution to an archive.
pub fn export_command(store_id: &str, archive_path: &str) -> (args: Vec<String>)
    ensures
        text::views(args@) == export_args(store_id@, archive_path@),
{
    let mut args = no_args();
    append(&mut args, "--export");
    append(&mut args, store_id);
    append(&mut args, archive_path);
    assert(text::views(args@) =~= export_args(store_id@, archive_path@));
    args
}

/// The command that removes a distribution.
pub fn unregister_command(store_id: &str) -> (args: Vec<String>)
    ensures
        text::views(args@) == unregister_args(store_id@),
{
    let mut args = no_args();
    append(&mut args, "--unregister");
    append(&mut args, store_id);
    assert(text::views(args@) =~= unregister_args(store_id@));
    args
}

/// The command that makes a distribution from a file.
pub fn import_command(name: &str, target_path: &str, file_path: &str, vhd: bool) -> (args: Vec<String>)
    ensures
        text::views(args@) == import_args(name@, target_path@, file_path@, vhd),
{
    let mut args = no_args();
    append(&mut args, "--import");
    append(&mut args, name);
    append(&mut args, target_path);
    append(&mut args, file_path);
    if vhd {
        append(&mut args, "--vhd");
    }
    assert(text::views(args@) =~= import_args(name@, target_path@, file_path@, vhd));
    args
}

/// A command as it would be typed.
pub fn command_text(args: &Vec<String>) -> (line: String)
    ensures
        line@ == command_line(text::views(args@)),
{
    let mut line = "wsl ".to_owned();
    line.append(text::join_with_spaces(args).as_str());
    line
}

/// Whether what a command said, in small letters, means that WSL does not know
/// the `--name` option: it mentions the option together with a word of refusal.
pub open spec fn refuses_name_option(lowered: Seq<char>) -> bool {
    &&& text::occurs("--name"@, lowered)
    &&& {
        ||| text::occurs("invalid"@, lowered)
        ||| text::occurs("unknown"@, lowered)
        ||| text::occurs("option"@, lowered)
        ||| text::occurs("参数"@, lowered)
        ||| text::occurs("选项"@, lowered)
        ||| text::occurs("usage"@, lowered)
    }
}

/// What a command said on both of its channels, in small letters.
pub open spec fn said_lowered(output: Seq<char>, error: Seq<char>) -> Seq<char> {
    text::with_line_end_between(text::lowercase_of(output), text::lowercase_of(error))
}

/// Whether a text in small letters means that WSL does not know `--name`.
pub fn lowered_refuses_name_option(lowered: &str) -> (yes: bool)
    ensures
        yes == refuses_name_option(lowered@),
{
    text::contains(lowered, "--name") && (text::contains(lowered, "invalid") || text::contains(
        lowered,
        "unknown",
    ) || text::contains(lowered, "option") || text::contains(lowered, "参数") || text::contains(
        lowered,
        "选项",
    ) || text::contains(lowered, "usage"))
}

/// Whether a failed installation means that WSL does not know `--name`.
pub fn supports_named_install_error(output: &str, error: &str) -> (yes: bool)
    ensures
        yes == refuses_name_option(said_lowered(output@, error@)),
        yes == refuses_name_option(text::lowercase_of(text::with_line_end_between(output@, error@))),
        text::all_ascii(output@) && text::all_ascii(error@) ==> yes == refuses_name_option(
            text::with_line_end_between(output@, error@).map_values(|c: char| text::ascii_lower(c)),
        ),
{
    let mut combined = output.to_owned();
    combined.append("\n");
    combined.append(error);
    proof {
        reveal_strlit("\n");
        assert(combined@ =~= text::with_line_end_between(output@, error@));
    }
    let lowered = combined.as_str().to_lowercase();
    lowered_refuses_name_option(lowered.as_str())
}

/// What holds no line end stands in two texts with a line end between them
/// exactly where it stands in one of them.
proof fn lemma_occurs_around_line_end(needle: Seq<char>, a: Seq<char>, b: Seq<char>)
    requires
        needle.len() > 0,
        forall|i: int| 0 <= i < needle.len() ==> #[trigger] needle[i] != '\n',
    ensures
        text::occurs(needle, a + seq!['\n'] + b) <==> text::occurs(needle, a) || text::occurs(needle, b),
{
    let whole = a + seq!['\n'] + b;
    let n = needle.len() as int;
    let behind = a.len() + 1;
    if text::occurs(needle, whole) {
        let i = choose|i: int| #[trigger] text::occurs_at(needle, whole, i);
        if i + n <= a.len() {
            assert(a.subrange(i, i + n) =~= whole.subrange(i, i + n));
            assert(text::occurs_at(needle, a, i));
        } else if i >= behind {
            assert(b.subrange(i - behind, i - behind + n) =~= whole.subrange(i, i + n));
            assert(text::occurs_at(needle, b, i - behind));
        } else {
            assert(whole.subrange(i, i + n)[a.len() - i] == '\n');
            assert(needle[a.len() - i] != '\n');
        }
    }
    if text::occurs(needle, a) {
        let i = choose|i: int| #[trigger] text::occurs_at(needle, a, i);
        assert(whole.subrange(i, i + n) =~= a.subrange(i, i + n));
        assert(text::occurs_at(needle, whole, i));
    }
    if text::occurs(needle, b) {
        let i = choose|i: int| #[trigger] text::occurs_at(needle, b, i);
        assert(whole.subrange(behind + i, behind + i + n) =~= b.subrange(i, i + n));
        assert(text::occurs_at(needle, whole, behind + i));
    }
}

/// It does not matter for `supports_named_install_error` which of the two channels
/// carries the option and which the word of refusal.
pub proof fn law_channels_may_be_swapped(output: Seq<char>, error: Seq<char>)
    ensures
        refuses_name_option(said_lowered(output, error)) == refuses_name_option(said_lowered(error, output)),
{
    let a = text::lowercase_of(output);
    let b = text::lowercase_of(error);
    reveal_strlit("--name");
    reveal_strlit("invalid");
    reveal_strlit("unknown");
    reveal_strlit("option");
    reveal_strlit("参数");
    reveal_strlit("选项");
    reveal_strlit("usage");
    lemma_swapped("--name"@, a, b);
    lemma_swapped("invalid"@, a, b);
    lemma_swapped("unknown"@, a, b);
    lemma_swapped("option"@, a, b);
    lemma_swapped("参数"@, a, b);
    lemma_swapped("选项"@, a, b);
    lemma_swapped("usage"@, a, b);
}

/// What holds no line end is found in two texts in either order.
proof fn lemma_swapped(needle: Seq<char>, a: Seq<char>, b: Seq<char>)
    requires
        needle.len() > 0,
        forall|i: int| 0 <= i < needle.len() ==> #[trigger] needle[i] != '\n',
    ensures
        text::occurs(needle, a + seq!['\n'] + b) == text::occurs(needle, b + seq!['\n'] + a),
{
    lemma_occurs_around_line_end(needle, a, b);
    lemma_occurs_around_line_end(needle, b, a);
}

/// Whether a word is said, in any case, on one of two channels.
pub open spec fn said_on_either(word: Seq<char>, output: Seq<char>, error: Seq<char>) -> bool {
    text::occurs(word, text::lowercase_of(output)) || text::occurs(word, text::lowercase_of(error))
}

/// A refusal of the option is recognised exactly where the option and a word of
/// refusal are each said, in any case, on whichever of the two channels.
pub proof fn law_refusal_is_read_from_both_channels(output: Seq<char>, error: Seq<char>)
    ensures
        refuses_name_option(said_lowered(output, error)) <==> {
            &&& said_on_either("--name"@, output, error)
            &&& {
                ||| said_on_either("invalid"@, output, error)
                ||| said_on_either("unknown"@, output, error)
                ||| said_on_either("option"@, output, error)
                ||| said_on_either("usage"@, output, error)
                ||| said_on_either("参数"@, output, error)
                ||| said_on_either("选项"@, output, error)
            }
        },
{
    let a = text::lowercase_of(output);
    let b = text::lowercase_of(error);
    reveal_strlit("--name");
    reveal_strlit("invalid");
    reveal_strlit("unknown");
    reveal_strlit("option");
    reveal_strlit("参数");
    reveal_strlit("选项");
    reveal_strlit("usage");
    lemma_occurs_around_line_end("--name"@, a, b);
    lemma_occurs_around_line_end("invalid"@, a, b);
    lemma_occurs_around_line_end("unknown"@, a, b);
    lemma_occurs_around_line_end("option"@, a, b);
    lemma_occurs_around_line_end("参数"@, a, b);
    lemma_occurs_around_line_end("选项"@, a, b);
    lemma_occurs_around_line_end("usage"@, a, b);
}

/// The direct installation names the distribution first and the instance behind
/// `--name`; it gives the path behind `--location` exactly where there is one,
/// never launches, and downloads from the web exactly where that was asked for.
pub proof fn law_direct_installation_command(
    store_id: Seq<char>,
    name: Seq<char>,
    target_path: Seq<char>,
    web_download: bool,
)
    ensures
        ({
            let args = direct_install_args(store_id, name, target_path, web_download);
            let placed: int = if target_path.len() > 0 {
                2
            } else {
                0
            };
            &&& args.len() == 5 + placed + (if web_download {
                1int
            } else {
                0int
            })
            &&& args[0] == "--install"@ && args[1] == store_id
            &&& args[2] == "--name"@ && args[3] == name
            &&& target_path.len() > 0 ==> args[4] == "--location"@ && args[5] == target_path
            &&& args[4 + placed] == "--no-launch"@
            &&& web_download ==> args.last() == "--web-download"@
        }),
{
}

/// The installation of a seed names the distribution alone.
pub proof fn law_seed_installation_command(store_id: Seq<char>, web_download: bool)
    ensures
        ({
            let args = seed_install_args(store_id, web_download);
            &&& args.len() == if web_download {
                5int
            } else {
                4int
            }
            &&& args[0] == "--install"@ && args[1] == "-d"@ && args[2] == store_id && args[3] == "--no-launch"@
            &&& web_download ==> args.last() == "--web-download"@
        }),
{
}

/// What is exported, removed and imported, and where to and from.
pub proof fn law_moving_commands(
    store_id: Seq<char>,
    name: Seq<char>,
    target_path: Seq<char>,
    file_path: Seq<char>,
    vhd: bool,
)
    ensures
        export_args(store_id, file_path).len() == 3,
        export_args(store_id, file_path)[0] == "--export"@,
        export_args(store_id, file_path)[1] == store_id,
        export_args(store_id, file_path)[2] == file_path,
        unregister_args(store_id).len() == 2,
        unregister_args(store_id)[0] == "--unregister"@,
        unregister_args(store_id)[1] == store_id,
        import_args(name, target_path, file_path, vhd).len() == if vhd {
            5int
        } else {
            4int
        },
        import_args(name, target_path, file_path, vhd)[0] == "--import"@,
        import_args(name, target_path, file_path, vhd)[1] == name,
        import_args(name, target_path, file_path, vhd)[2] == target_path,
        import_args(name, target_path, file_path, vhd)[3] == file_path,
        vhd ==> import_args(name, target_path, file_path, vhd)[4] == "--vhd"@,
{
}

/// A command as it would be typed starts with `wsl`, and each argument follows
/// behind a space.
pub proof fn law_typed_command(args: Seq<Seq<char>>, last: Seq<char>)
    ensures
        command_line(seq![last]) == "wsl "@ + last,
        args.len() > 0 ==> command_line(args.push(last)) == command_line(args) + seq![' '] + last,
{
    text::law_joining_piece_by_piece(args, seq![last], last);
    if args.len() > 0 {
        assert(args.push(last) =~= args + seq![last]);
        assert(command_line(args.push(last)) =~= command_line(args) + seq![' '] + last);
    }
}

} // verus!
