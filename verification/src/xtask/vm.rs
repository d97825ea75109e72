//! The guest in which tests are run: its image, its isolation, and the order of its setup.

use crate::encoding::{decode_lossy, lossy_text};
use crate::text::{
    blank, chars_of, concat, contains, contains_text, is_white_space, law_blank_text_has_no_word,
    law_contains_means_a_part, law_first_word, law_split_at_a_separator, law_split_keeps_what_comes_first,
    law_text_without_a_separator_is_one_piece, law_white_space, same_text, solid, split, split_chars,
    string_of, texts, trim, words, words_of,
};
use crate::xtask::command::{execute_cmd, host_failure, CommandOutput};
use vstd::prelude::*;

verus! {

/// The network profile of the guest.
pub const NO_NETWORK_PROFILE: &'static str = "bb-no-network";

/// A stage of the setup of the guest.
#[derive(Clone, Copy, PartialEq, Eq, Structural)]
pub enum SetupStage {
    /// Make sure that the base image is known.
    BaseImage,
    /// Delete a guest that an earlier run left behind.
    Discard,
    /// Start the guest.
    Launch,
    /// Wait until it is up.
    Await,
    /// Copy the workspace into it.
    Transfer,
    /// Write the configuration of the daemon.
    Configure,
    /// Compile the workspace.
    Compile,
    /// Take the network away.
    AirGap,
    /// Activate the security modules of the kernel, and restart.
    KernelParameters,
    /// See that the network is gone.
    VerifyAirGap,
    /// Capture the state that every test starts from.
    Snapshot,
    /// All is done.
    Finished,
}

/// The position of a stage in the setup.
pub open spec fn rank(stage: SetupStage) -> int {
    match stage {
        SetupStage::BaseImage => 0,
        SetupStage::Discard => 1,
        SetupStage::Launch => 2,
        SetupStage::Await => 3,
        SetupStage::Transfer => 4,
        SetupStage::Configure => 5,
        SetupStage::Compile => 6,
        SetupStage::AirGap => 7,
        SetupStage::KernelParameters => 8,
        SetupStage::VerifyAirGap => 9,
        SetupStage::Snapshot => 10,
        SetupStage::Finished => 11,
    }
}

/// The stage that follows one that succeeded; the setup ends with the first that fails.
pub fn next_stage(stage: SetupStage) -> (r: SetupStage)
    ensures
        stage != SetupStage::Finished ==> rank(r) == rank(stage) + 1,
        stage == SetupStage::Finished ==> r == stage,
{
    match stage {
        SetupStage::BaseImage => SetupStage::Discard,
        SetupStage::Discard => SetupStage::Launch,
        SetupStage::Launch => SetupStage::Await,
        SetupStage::Await => SetupStage::Transfer,
        SetupStage::Transfer => SetupStage::Configure,
        SetupStage::Configure => SetupStage::Compile,
        SetupStage::Compile => SetupStage::AirGap,
        SetupStage::AirGap => SetupStage::KernelParameters,
        SetupStage::KernelParameters => SetupStage::VerifyAirGap,
        SetupStage::VerifyAirGap => SetupStage::Snapshot,
        SetupStage::Snapshot => SetupStage::Finished,
        SetupStage::Finished => SetupStage::Finished,
    }
}

/// Whether `stages` are those that a setup went through, from the first.
pub open spec fn is_setup(stages: Seq<SetupStage>) -> bool {
    &&& stages.len() > 0
    &&& stages[0] == SetupStage::BaseImage
    &&& forall|i: int|
        0 < i < stages.len() ==> rank(#[trigger] stages[i]) == rank(stages[i - 1]) + 1
}

proof fn lemma_setup_rank(stages: Seq<SetupStage>, i: int)
    requires
        is_setup(stages),
        0 <= i < stages.len(),
    ensures
        rank(stages[i]) == i,
    decreases i,
{
    if i > 0 {
        lemma_setup_rank(stages, i - 1);
    }
}

/// Tests never start from a state that saw the network: before the snapshot is taken the network
/// was taken away, and after the last restart it was seen to be gone.
pub proof fn law_snapshot_is_air_gapped(stages: Seq<SetupStage>)
    requires
        is_setup(stages),
        stages.last() == SetupStage::Snapshot,
    ensures
        stages.len() == 11,
        stages[7] == SetupStage::AirGap,
        stages[8] == SetupStage::KernelParameters,
        stages[9] == SetupStage::VerifyAirGap,
{
    lemma_setup_rank(stages, stages.len() - 1);
    lemma_setup_rank(stages, 7);
    lemma_setup_rank(stages, 8);
    lemma_setup_rank(stages, 9);
}

/// Whether a text begins with another.
pub open spec fn has_prefix(s: Seq<char>, prefix: Seq<char>) -> bool {
    prefix.len() <= s.len() && s.take(prefix.len() as int) == prefix
}

/// Tests whether a text begins with another.
fn starts_with(s: &str, prefix: &str) -> (r: bool)
    ensures
        r == has_prefix(s@, prefix@),
{
    let chars = chars_of(s);
    let wanted = chars_of(prefix);
    if chars.len() < wanted.len() {
        return false;
    }
    let start = string_of(chars.as_slice(), 0, wanted.len());
    assert(start@ =~= s@.take(prefix@.len() as int));
    same_text(start.as_str(), prefix)
}

/// The start of the names of an image's archives.
pub open spec fn archive_prefix(alias: Seq<char>) -> Seq<char> {
    alias + ".tar"@
}

/// Whether `at` is where the first archive of an image stands among file names.
pub open spec fn archive_at(names: Seq<Seq<char>>, alias: Seq<char>, at: Option<usize>) -> bool {
    match at {
        Some(i) => {
            &&& i < names.len()
            &&& has_prefix(names[i as int], archive_prefix(alias))
            &&& forall|j: int| 0 <= j < i ==> !has_prefix(#[trigger] names[j], archive_prefix(alias))
        },
        None => forall|j: int|
            0 <= j < names.len() ==> !has_prefix(#[trigger] names[j], archive_prefix(alias)),
    }
}

/// The error for an image without an archive, in the model.
pub open spec fn image_missing(alias: Seq<char>) -> Seq<char> {
    "Pre-compiled test image '"@ + alias + "' missing. Run `scripts/build_image.sh -out "@ + alias
        + "`."@
}

/// Finds the archive of an image among the files of the test directory.
pub fn find_archive(names: &Vec<String>, image_alias: &str) -> (r: Result<usize, String>)
    ensures
        archive_at(texts(names@), image_alias@, r.ok()),
        r matches Err(error) ==> error@ == image_missing(image_alias@),
{
    let mut prefix = image_alias.to_owned();
    prefix.append(".tar");
    let mut i: usize = 0;
    while i < names.len()
        invariant
            i <= names@.len(),
            prefix@ == archive_prefix(image_alias@),
            forall|j: int|
                0 <= j < i ==> !has_prefix(
                    #[trigger] texts(names@)[j],
                    archive_prefix(image_alias@),
                ),
        decreases names@.len() - i,
    {
        assert(texts(names@)[i as int] == names@[i as int]@);
        if starts_with(names[i].as_str(), prefix.as_str()) {
            return Ok(i);
        }
        i = i + 1;
    }
    let mut error = "Pre-compiled test image '".to_owned();
    error.append(image_alias);
    error.append("' missing. Run `scripts/build_image.sh -out ");
    error.append(image_alias);
    error.append("`.");
    Err(error)
}

/// The first word of a text; empty where there is none.
pub open spec fn first_word(s: Seq<char>) -> Seq<char> {
    if words(s).len() > 0 {
        words(s)[0]
    } else {
        Seq::empty()
    }
}

/// The fingerprint in the output of a checksum tool: its first word.
pub fn fingerprint(stdout: &[u8]) -> (r: String)
    ensures
        r@ == first_word(lossy_text(stdout@)),
{
    let chars = chars_of(decode_lossy(stdout).as_str());
    let found = words_of(&chars);
    let ghost all = words(lossy_text(stdout@));
    assert(texts(found@).len() == found@.len());
    if found.len() > 0 {
        assert(all[0] == found@[0]@);
        found[0].as_str().to_owned()
    } else {
        String::new()
    }
}

/// The interface that a line of `ip -o link show` is about, if any: its second word, without the
/// colon at its end and the peer behind an at sign.
pub open spec fn interface_of(line: Seq<char>) -> Option<Seq<char>> {
    if words(line).len() > 1 {
        Some(split(split(words(line)[1], ':')[0], '@')[0])
    } else {
        None
    }
}

/// Whether a line is about an interface other than the loopback.
pub open spec fn is_exposed(line: Seq<char>) -> bool {
    interface_of(line) matches Some(name) && name != "lo"@
}

/// The first interface other than the loopback in the output of `ip -o link show`, if any.
pub open spec fn exposed_interface(lines: Seq<Seq<char>>) -> Option<Seq<char>>
    decreases lines.len(),
{
    if lines.len() == 0 {
        None
    } else if is_exposed(lines[0]) {
        interface_of(lines[0])
    } else {
        exposed_interface(lines.drop_first())
    }
}

/// The error for a guest that has a network, in the model.
pub open spec fn airgap_error(name: Seq<char>) -> Seq<char> {
    "Air-gap violation: "@ + name + " interface detected"@
}

/// The interface that breaks the isolation of the guest, if any. `eth0` does so wherever it is
/// mentioned.
pub open spec fn airgap_breach(listing: Seq<char>) -> Option<Seq<char>> {
    if contains(listing, "eth0"@) {
        Some("eth0"@)
    } else {
        exposed_interface(split(listing, '\n'))
    }
}

proof fn lemma_split_nonempty(s: Seq<char>, c: char)
    ensures
        split(s, c).len() > 0,
{
}

/// The interface that a line is about.
fn interface_in(line: &str) -> (r: Option<String>)
    ensures
        r is Some <==> interface_of(line@) is Some,
        r matches Some(name) ==> interface_of(line@) == Some(name@),
{
    let found = words_of(&chars_of(line));
    assert(texts(found@).len() == found@.len());
    if found.len() < 2 {
        return None;
    }
    assert(words(line@)[1] == found@[1]@);
    let labels = split_chars(&chars_of(found[1].as_str()), ':');
    proof {
        lemma_split_nonempty(found@[1]@, ':');
    }
    assert(texts(labels@).len() == labels@.len());
    assert(texts(labels@)[0] == labels@[0]@);
    let names = split_chars(&chars_of(labels[0].as_str()), '@');
    proof {
        lemma_split_nonempty(labels@[0]@, '@');
    }
    assert(texts(names@).len() == names@.len());
    assert(texts(names@)[0] == names@[0]@);
    Some(names[0].as_str().to_owned())
}

/// Sees that the guest has no network: `outcome` is the standard output of `ip -o link show` in the
/// guest, or why it could not be run.
pub fn assert_no_network(outcome: Result<Vec<u8>, String>) -> (r: Result<(), String>)
    ensures
        r is Ok <==> (outcome matches Ok(stdout) && airgap_breach(lossy_text(stdout@)) is None),
        r matches Err(error) ==> match outcome {
            Ok(stdout) => airgap_breach(lossy_text(stdout@)) matches Some(name) && error@
                == airgap_error(name),
            Err(reason) => error@ == "Failed to inspect VM network: "@ + reason@,
        },
{
    let stdout = match outcome {
        Ok(bytes) => bytes,
        Err(reason) => {
            let mut error = "Failed to inspect VM network: ".to_owned();
            error.append(reason.as_str());
            return Err(error);
        },
    };
    let listing = decode_lossy(stdout.as_slice());
    if contains_text(listing.as_str(), "eth0") {
        let mut error = "Air-gap violation: ".to_owned();
        error.append("eth0");
        error.append(" interface detected");
        return Err(error);
    }
    let lines = split_chars(&chars_of(listing.as_str()), '\n');
    let ghost all = split(listing@, '\n');
    assert(texts(lines@) == all);
    assert(lines@.len() == all.len());
    let mut i: usize = 0;
    assert(all.skip(0) =~= all);
    while i < lines.len()
        invariant
            i <= lines@.len() == all.len(),
            texts(lines@) == all,
            all == split(lossy_text(stdout@), '\n'),
            outcome == Ok::<Vec<u8>, String>(stdout),
            !contains(lossy_text(stdout@), "eth0"@),
            exposed_interface(all.skip(i as int)) == exposed_interface(all),
        decreases lines@.len() - i,
    {
        assert(all[i as int] == lines@[i as int]@);
        assert(all.skip(i as int)[0] == all[i as int]);
        assert(all.skip(i as int).drop_first() =~= all.skip(i + 1));
        if let Some(name) = interface_in(lines[i].as_str()) {
            if !same_text(name.as_str(), "lo") {
                let mut error = "Air-gap violation: ".to_owned();
                error.append(name.as_str());
                error.append(" interface detected");
                return Err(error);
            }
        }
        i = i + 1;
    }
    assert(all.skip(i as int) =~= Seq::empty());
    Ok(())
}

/// Whether the base image has to be built: it does unless one of its archives is there.
pub fn needs_image_build(gz_exists: bool, xz_exists: bool) -> (r: bool)
    ensures
        r == !(gz_exists || xz_exists),
{
    !(gz_exists || xz_exists)
}

/// The command line that starts the guest, in the model.
pub open spec fn launch_line(image_alias: Seq<char>) -> Seq<Seq<char>> {
    seq![
        "launch"@,
        image_alias,
        "bb-test-runner"@,
        "--vm"@,
        "-c"@,
        "security.secureboot=false"@,
        "-c"@,
        "limits.cpu=4"@,
        "-c"@,
        "limits.memory=8GB"@,
    ]
}

/// The command line that starts the guest: a virtual machine, not a container, so that it has a
/// kernel of its own.
pub fn launch_args(image_alias: &str) -> (r: Vec<String>)
    ensures
        texts(r@) == launch_line(image_alias@),
{
    let args = vec![
        "launch".to_owned(),
        image_alias.to_owned(),
        "bb-test-runner".to_owned(),
        "--vm".to_owned(),
        "-c".to_owned(),
        "security.secureboot=false".to_owned(),
        "-c".to_owned(),
        "limits.cpu=4".to_owned(),
        "-c".to_owned(),
        "limits.memory=8GB".to_owned(),
    ];
    assert(texts(args@) =~= launch_line(image_alias@));
    args
}

/// Whether the first archive of an image stands at `at`, and it is to be imported.
pub open spec fn imports(names: Seq<Seq<char>>, alias: Seq<char>, action: ImageAction) -> bool {
    match action {
        ImageAction::Import(i) => archive_at(names, alias, Some(i)),
        ImageAction::Fail(error) => archive_at(names, alias, None) && error@ == image_missing(alias),
        _ => false,
    }
}

/// What came of the last step towards a known base image.
pub enum ImageEvent {
    /// Whether the image is known.
    Known(bool),
    /// The files of the test directory.
    Listed(Vec<String>),
    /// The import was run; or why it could not be.
    Imported(Result<CommandOutput, String>),
    /// The checksum of the archive was taken; or why it could not be.
    Checksum(Result<CommandOutput, String>),
    /// The alias was created; or why it could not be.
    Aliased(Result<CommandOutput, String>),
}

/// What to do next towards a known base image.
pub enum ImageAction {
    /// List the files of the test directory.
    List,
    /// Import the archive at this position of the listing.
    Import(usize),
    /// Take the checksum of the archive.
    Checksum,
    /// Create the alias for this fingerprint.
    CreateAlias(String),
    /// The image is known.
    Done,
    /// It is not, for this reason.
    Fail(String),
}

/// Whether an action is the failure with this reason.
pub open spec fn fails_with(action: ImageAction, reason: Seq<char>) -> bool {
    action matches ImageAction::Fail(error) && error@ == reason
}

/// Whether `action` is what follows an event on the way to a known base image. An image that is
/// there under another name only needs an alias.
pub open spec fn image_follows(alias: Seq<char>, event: ImageEvent, action: ImageAction) -> bool {
    match event {
        ImageEvent::Known(true) => action is Done,
        ImageEvent::Known(false) => action is List,
        ImageEvent::Listed(names) => imports(texts(names@), alias, action),
        ImageEvent::Imported(Ok(output)) => if output.success {
            action is Done
        } else if contains(lossy_text(output.stderr@), "already exists"@) {
            action is Checksum
        } else {
            fails_with(action, "Image synchronization error:\n"@ + lossy_text(output.stderr@))
        },
        ImageEvent::Imported(Err(reason)) => fails_with(action, "Incus import failed: "@ + reason@),
        ImageEvent::Checksum(Ok(output)) => action matches ImageAction::CreateAlias(found) && found@
            == first_word(lossy_text(output.stdout@)),
        ImageEvent::Checksum(Err(reason)) => fails_with(action, reason@),
        ImageEvent::Aliased(Ok(output)) => if output.success {
            action is Done
        } else {
            fails_with(
                action,
                host_failure("Failed to bypass alias lock"@, output.code, output.stderr@),
            )
        },
        ImageEvent::Aliased(Err(reason)) => fails_with(
            action,
            "Failed to bypass alias lock"@ + ": "@ + reason@,
        ),
    }
}

/// One step towards a known base image, which starts with the question whether it is known already.
pub fn ensure_base_image(image_alias: &str, event: ImageEvent) -> (r: ImageAction)
    ensures
        image_follows(image_alias@, event, r),
{
    match event {
        ImageEvent::Known(true) => ImageAction::Done,
        ImageEvent::Known(false) => ImageAction::List,
        ImageEvent::Listed(names) => match find_archive(&names, image_alias) {
            Ok(i) => ImageAction::Import(i),
            Err(error) => ImageAction::Fail(error),
        },
        ImageEvent::Imported(Ok(output)) => {
            if output.success {
                return ImageAction::Done;
            }
            let stderr = decode_lossy(output.stderr.as_slice());
            if contains_text(stderr.as_str(), "already exists") {
                ImageAction::Checksum
            } else {
                ImageAction::Fail(concat("Image synchronization error:\n", stderr.as_str()))
            }
        },
        ImageEvent::Imported(Err(reason)) => ImageAction::Fail(
            concat("Incus import failed: ", reason.as_str()),
        ),
        ImageEvent::Checksum(Ok(output)) => ImageAction::CreateAlias(
            fingerprint(output.stdout.as_slice()),
        ),
        ImageEvent::Checksum(Err(reason)) => ImageAction::Fail(reason),
        ImageEvent::Aliased(outcome) => match execute_cmd("Failed to bypass alias lock", outcome) {
            Ok(_) => ImageAction::Done,
            Err(error) => ImageAction::Fail(error),
        },
    }
}

/// The base image only counts as known when it was known, was imported, or got its alias.
pub proof fn law_image_is_known(alias: Seq<char>, event: ImageEvent, action: ImageAction)
    requires
        image_follows(alias, event, action),
        action is Done,
    ensures
        ({
            ||| event matches ImageEvent::Known(true)
            ||| event matches ImageEvent::Imported(Ok(output)) && output.success
            ||| event matches ImageEvent::Aliased(Ok(output)) && output.success
        }),
{
}

/// What came of the last step of taking the network away.
pub enum AirGapEvent {
    /// Whether the profile without a network exists.
    Profile(bool),
    /// The default profile was copied; or why it could not be.
    Copied(Result<CommandOutput, String>),
    /// The network adapter was removed from the profile; or why it could not be.
    Removed(Result<CommandOutput, String>),
    /// The profile was assigned to the guest; or why it could not be.
    Assigned(Result<CommandOutput, String>),
}

/// What to do next to take the network away.
pub enum AirGapAction {
    /// Copy the default profile.
    Copy,
    /// Remove the network adapter from the profile.
    RemoveAdapter,
    /// Assign the profile to the guest.
    Assign,
    /// The network is gone.
    Done,
    /// It is not, for this reason.
    Fail(String),
}

/// Whether an action is the failure with this reason.
pub open spec fn gap_fails_with(action: AirGapAction, reason: Seq<char>) -> bool {
    action matches AirGapAction::Fail(error) && error@ == reason
}

/// Whether the removal of the adapter left the profile without one: it was removed, or there was
/// none.
pub open spec fn adapter_gone(outcome: Result<CommandOutput, String>) -> bool {
    outcome matches Ok(output) && (output.success || contains(
        lossy_text(output.stderr@),
        "doesn't exist"@,
    ))
}

/// Whether `action` is what follows an event on the way to a guest without a network.
pub open spec fn gap_follows(event: AirGapEvent, action: AirGapAction) -> bool {
    match event {
        AirGapEvent::Profile(true) => action is RemoveAdapter,
        AirGapEvent::Profile(false) => action is Copy,
        AirGapEvent::Copied(outcome) => follows_host(
            outcome,
            action,
            AirGapAction::RemoveAdapter,
            "Failed to copy default profile"@,
        ),
        AirGapEvent::Removed(outcome) => if adapter_gone(outcome) {
            action is Assign
        } else {
            match outcome {
                Ok(output) => gap_fails_with(
                    action,
                    "Failed to remove eth0 from profile:\n"@ + lossy_text(output.stderr@),
                ),
                Err(reason) => gap_fails_with(
                    action,
                    "Failed to execute incus profile device remove: "@ + reason@,
                ),
            }
        },
        AirGapEvent::Assigned(outcome) => follows_host(
            outcome,
            action,
            AirGapAction::Done,
            "Failed to assign air-gapped profile"@,
        ),
    }
}

/// Whether `action` is `next` after a host command that succeeded, and its failure otherwise.
pub open spec fn follows_host(
    outcome: Result<CommandOutput, String>,
    action: AirGapAction,
    next: AirGapAction,
    message: Seq<char>,
) -> bool {
    match outcome {
        Ok(output) => if output.success {
            action == next
        } else {
            gap_fails_with(action, host_failure(message, output.code, output.stderr@))
        },
        Err(reason) => gap_fails_with(action, message + ": "@ + reason@),
    }
}

/// One step of taking the network away, which starts with the question whether the profile for it
/// exists.
pub fn enforce_airgap(event: AirGapEvent) -> (r: AirGapAction)
    ensures
        gap_follows(event, r),
{
    match event {
        AirGapEvent::Profile(true) => AirGapAction::RemoveAdapter,
        AirGapEvent::Profile(false) => AirGapAction::Copy,
        AirGapEvent::Copied(outcome) => match execute_cmd(
            "Failed to copy default profile",
            outcome,
        ) {
            Ok(_) => AirGapAction::RemoveAdapter,
            Err(error) => AirGapAction::Fail(error),
        },
        AirGapEvent::Removed(Ok(output)) => {
            if output.success {
                return AirGapAction::Assign;
            }
            let stderr = decode_lossy(output.stderr.as_slice());
            if contains_text(stderr.as_str(), "doesn't exist") {
                AirGapAction::Assign
            } else {
                AirGapAction::Fail(concat("Failed to remove eth0 from profile:\n", stderr.as_str()))
            }
        },
        AirGapEvent::Removed(Err(reason)) => AirGapAction::Fail(
            concat("Failed to execute incus profile device remove: ", reason.as_str()),
        ),
        AirGapEvent::Assigned(outcome) => match execute_cmd(
            "Failed to assign air-gapped profile",
            outcome,
        ) {
            Ok(_) => AirGapAction::Done,
            Err(error) => AirGapAction::Fail(error),
        },
    }
}

/// What an operator is told of an event on the way to the air gap, in the model.
pub open spec fn gap_notice(event: AirGapEvent) -> Option<Seq<char>> {
    match event {
        AirGapEvent::Profile(true) => Some("[INFO] 'bb-no-network' profile already exists."@),
        AirGapEvent::Profile(false) => Some(
            "[INFO] Creating 'bb-no-network' profile from default..."@,
        ),
        AirGapEvent::Removed(Ok(output)) => if output.success {
            Some("[INFO] Removed eth0 from 'bb-no-network' profile."@)
        } else if adapter_gone(Ok(output)) {
            Some("[INFO] No eth0 device present (already air-gapped)."@)
        } else {
            None
        },
        _ => None,
    }
}

/// What an operator is told of an event on the way to the air gap, if anything.
pub fn airgap_notice(event: &AirGapEvent) -> (r: Option<&'static str>)
    ensures
        r is Some <==> gap_notice(*event) is Some,
        r matches Some(line) ==> gap_notice(*event) == Some(line@),
{
    match event {
        AirGapEvent::Profile(true) => Some("[INFO] 'bb-no-network' profile already exists."),
        AirGapEvent::Profile(false) => Some(
            "[INFO] Creating 'bb-no-network' profile from default...",
        ),
        AirGapEvent::Removed(Ok(output)) => if output.success {
            Some("[INFO] Removed eth0 from 'bb-no-network' profile.")
        } else if contains_text(decode_lossy(output.stderr.as_slice()).as_str(), "doesn't exist") {
            Some("[INFO] No eth0 device present (already air-gapped).")
        } else {
            None
        },
        _ => None,
    }
}

/// Whether an event reports on an action.
pub open spec fn gap_reports(event: AirGapEvent, action: AirGapAction) -> bool {
    match action {
        AirGapAction::Copy => event is Copied,
        AirGapAction::RemoveAdapter => event is Removed,
        AirGapAction::Assign => event is Assigned,
        AirGapAction::Done | AirGapAction::Fail(_) => false,
    }
}

/// Whether `actions[i]` is what followed `events[i]`, and each further event reports on the action
/// before it.
pub open spec fn is_gapping(events: Seq<AirGapEvent>, actions: Seq<AirGapAction>) -> bool {
    &&& events.len() > 0
    &&& events.len() == actions.len()
    &&& events[0] is Profile
    &&& forall|i: int| 0 <= i < events.len() ==> gap_follows(#[trigger] events[i], actions[i])
    &&& forall|i: int| 0 < i < events.len() ==> gap_reports(#[trigger] events[i], actions[i - 1])
}

/// The network only counts as gone when the guest was assigned a profile that has no adapter.
pub proof fn law_airgap_needs_removal(events: Seq<AirGapEvent>, actions: Seq<AirGapAction>)
    requires
        is_gapping(events, actions),
        actions.last() is Done,
    ensures
        events.len() >= 3,
        events[events.len() - 2] matches AirGapEvent::Removed(outcome) && adapter_gone(outcome),
        events.last() matches AirGapEvent::Assigned(Ok(output)) && output.success,
{
    let n = events.len() as int;
    assert(gap_follows(events[n - 1], actions[n - 1]));
    assert(gap_reports(events[n - 1], actions[n - 2]));
    assert(gap_follows(events[n - 2], actions[n - 2]));
    assert(gap_reports(events[n - 2], actions[n - 3]));
    assert(gap_follows(events[n - 3], actions[n - 3]));
}

/// The stages of a setup, in their order: none is left out and none comes twice.
pub proof fn law_stages_come_in_order(stages: Seq<SetupStage>, i: int)
    requires
        is_setup(stages),
        0 <= i < stages.len(),
    ensures
        stages.len() <= 12,
        stages[i] == seq![
            SetupStage::BaseImage,
            SetupStage::Discard,
            SetupStage::Launch,
            SetupStage::Await,
            SetupStage::Transfer,
            SetupStage::Configure,
            SetupStage::Compile,
            SetupStage::AirGap,
            SetupStage::KernelParameters,
            SetupStage::VerifyAirGap,
            SetupStage::Snapshot,
            SetupStage::Finished,
        ][i],
{
    lemma_setup_rank(stages, stages.len() - 1);
    lemma_setup_rank(stages, i);
}

/// The archive of an image is the first file whose name is that of the image and `.tar`, whatever
/// follows; without one the image is missing.
pub proof fn law_archives_start_with_the_image(name: Seq<char>, alias: Seq<char>)
    ensures
        has_prefix(name, archive_prefix(alias)) <==> exists|rest: Seq<char>|
            name == #[trigger] (alias + ".tar"@ + rest),
{
    let prefix = alias + ".tar"@;
    if has_prefix(name, prefix) {
        assert(name =~= alias + ".tar"@ + name.skip(prefix.len() as int));
    }
    if exists|rest: Seq<char>| name == #[trigger] (alias + ".tar"@ + rest) {
        let rest = choose|rest: Seq<char>| name == #[trigger] (alias + ".tar"@ + rest);
        assert(name.take(prefix.len() as int) =~= prefix);
    }
}

/// The line of an interface names it: behind the index, up to the colon, without a peer.
pub proof fn law_lines_name_their_interface(
    left: Seq<char>,
    index: Seq<char>,
    gap: Seq<char>,
    name: Seq<char>,
    peer: Seq<char>,
    rest: Seq<char>,
)
    requires
        blank(left),
        blank(gap),
        gap.len() > 0,
        index.len() > 0,
        solid(index),
        name.len() > 0,
        solid(name),
        !name.contains(':'),
        !name.contains('@'),
        solid(peer),
        peer.len() > 0 ==> peer[0] == '@',
        rest.len() > 0 ==> is_white_space(rest[0]),
    ensures
        interface_of(left + index + (gap + (name + peer + seq![':']) + rest)) == Some(name),
        is_exposed(left + index + (gap + (name + peer + seq![':']) + rest)) <==> name != "lo"@,
{
    let word = name + peer + seq![':'];
    let tail = gap + word + rest;
    let line = left + index + tail;
    assert(is_white_space(gap[0]));
    assert(tail[0] == gap[0]);
    law_white_space(':');
    assert forall|i: int| 0 <= i < word.len() implies !is_white_space(#[trigger] word[i]) by {
        if i < name.len() {
            assert(word[i] == name[i]);
        } else if i < name.len() + peer.len() {
            assert(word[i] == peer[i - name.len()]);
        }
    }
    law_first_word(left, index, tail);
    law_first_word(gap, word, rest);
    assert(words(line)[1] == word);
    assert(word =~= name + (peer + seq![':']));
    law_split_keeps_what_comes_first(name, peer + seq![':'], ':');
    let label = split(word, ':')[0];
    let behind = split(peer + seq![':'], ':')[0];
    assert(label == name + behind);
    if peer.len() > 0 {
        assert(peer + seq![':'] =~= seq!['@'] + (peer.drop_first() + seq![':']));
        law_split_keeps_what_comes_first(seq!['@'], peer.drop_first() + seq![':'], ':');
        let more = split(peer.drop_first() + seq![':'], ':')[0];
        assert(label =~= name + seq!['@'] + more);
        law_split_at_a_separator(name, '@', more);
        law_text_without_a_separator_is_one_piece(name, '@');
    } else {
        assert(peer + seq![':'] =~= Seq::<char>::empty() + seq![':'] + Seq::<char>::empty());
        law_split_at_a_separator(Seq::empty(), ':', Seq::empty());
        law_text_without_a_separator_is_one_piece(Seq::empty(), ':');
        assert(behind =~= Seq::<char>::empty());
        assert(label =~= name);
        law_text_without_a_separator_is_one_piece(name, '@');
    }
}

proof fn lemma_exposed(lines: Seq<Seq<char>>)
    ensures
        exposed_interface(lines) is None <==> forall|i: int|
            0 <= i < lines.len() ==> !is_exposed(#[trigger] lines[i]),
        exposed_interface(lines) matches Some(name) ==> exists|i: int|
            0 <= i < lines.len() && interface_of(#[trigger] lines[i]) == Some(name) && name != "lo"@,
    decreases lines.len(),
{
    if lines.len() > 0 {
        let rest = lines.drop_first();
        lemma_exposed(rest);
        if is_exposed(lines[0]) {
            assert(interface_of(lines[0]) == exposed_interface(lines));
        } else {
            if exposed_interface(rest) is None {
                assert forall|i: int| 0 <= i < lines.len() implies !is_exposed(
                    #[trigger] lines[i],
                ) by {
                    if i > 0 {
                        assert(lines[i] == rest[i - 1]);
                    }
                }
            } else {
                let name = exposed_interface(rest)->0;
                let i = choose|i: int|
                    0 <= i < rest.len() && interface_of(#[trigger] rest[i]) == Some(name) && name
                        != "lo"@;
                assert(lines[i + 1] == rest[i]);
                assert(is_exposed(lines[i + 1]));
            }
        }
    }
}

/// The guest is isolated exactly if `eth0` is mentioned nowhere and every interface that the listing
/// has a line for is the loopback; otherwise an interface is named that is in the listing and is not
/// the loopback.
pub proof fn law_only_the_loopback_is_isolated(listing: Seq<char>)
    ensures
        airgap_breach(listing) is None <==> !contains(listing, "eth0"@) && forall|i: int|
            0 <= i < split(listing, '\n').len() ==> {
                ||| interface_of(#[trigger] split(listing, '\n')[i]) is None
                ||| interface_of(split(listing, '\n')[i]) == Some("lo"@)
            },
        airgap_breach(listing) matches Some(name) ==> (if contains(listing, "eth0"@) {
            name == "eth0"@
        } else {
            name != "lo"@ && exists|i: int|
                0 <= i < split(listing, '\n').len() && interface_of(
                    #[trigger] split(listing, '\n')[i],
                ) == Some(name)
        }),
{
    let lines = split(listing, '\n');
    lemma_exposed(lines);
    if forall|i: int|
        0 <= i < lines.len() ==> {
            ||| interface_of(#[trigger] lines[i]) is None
            ||| interface_of(lines[i]) == Some("lo"@)
        } {
        assert forall|i: int| 0 <= i < lines.len() implies !is_exposed(#[trigger] lines[i]) by {}
    }
    if exposed_interface(lines) is None {
        assert forall|i: int| 0 <= i < lines.len() implies {
            ||| interface_of(#[trigger] lines[i]) is None
            ||| interface_of(lines[i]) == Some("lo"@)
        } by {
            assert(!is_exposed(lines[i]));
        }
    }
}

/// How the base image becomes known: one that is not known is looked for among the archives and
/// imported; one that is there under another name gets an alias for its fingerprint, the first word
/// that the checksum tool wrote.
pub proof fn law_unknown_images_are_imported(alias: Seq<char>, event: ImageEvent, action: ImageAction)
    requires
        image_follows(alias, event, action),
    ensures
        action is Done <==> {
            ||| event matches ImageEvent::Known(known) && known
            ||| event matches ImageEvent::Imported(Ok(output)) && output.success
            ||| event matches ImageEvent::Aliased(Ok(output)) && output.success
        },
        action is List <==> (event matches ImageEvent::Known(known) && !known),
        action is Checksum <==> (event matches ImageEvent::Imported(Ok(output)) && !output.success
            && contains(lossy_text(output.stderr@), "already exists"@)),
        action is CreateAlias <==> (event matches ImageEvent::Checksum(taken) && taken is Ok),
        action is Import ==> event is Listed,
        event matches ImageEvent::Listed(names) ==> (action is Import <==> exists|i: int|
            0 <= i < names@.len() && has_prefix(#[trigger] names@[i]@, alias + ".tar"@)),
        action matches ImageAction::Import(i) ==> (event matches ImageEvent::Listed(names) && i
            < names@.len() && has_prefix(names@[i as int]@, alias + ".tar"@) && forall|j: int|
            0 <= j < i ==> !has_prefix(#[trigger] names@[j]@, alias + ".tar"@)),
{
    if let ImageEvent::Listed(names) = event {
        let all = texts(names@);
        assert forall|j: int| 0 <= j < names@.len() implies all[j] == (#[trigger] names@[j])@ by {}
        match action {
            ImageAction::Import(i) => {
                assert(has_prefix(names@[i as int]@, alias + ".tar"@));
                assert forall|j: int| 0 <= j < i implies !has_prefix(
                    #[trigger] names@[j]@,
                    alias + ".tar"@,
                ) by {
                    assert(!has_prefix(all[j], archive_prefix(alias)));
                }
            },
            _ => {
                assert forall|j: int| 0 <= j < names@.len() implies !has_prefix(
                    #[trigger] names@[j]@,
                    alias + ".tar"@,
                ) by {
                    assert(!has_prefix(all[j], archive_prefix(alias)));
                }
            },
        }
    }
}

/// A fingerprint is the first word of what the checksum tool wrote, or nothing where it wrote none.
pub proof fn law_fingerprint_is_the_first_word(left: Seq<char>, word: Seq<char>, rest: Seq<char>)
    requires
        blank(left),
        word.len() > 0,
        solid(word),
        rest.len() > 0 ==> is_white_space(rest[0]),
    ensures
        first_word(left + word + rest) == word,
        first_word(left) == Seq::<char>::empty(),
{
    law_first_word(left, word, rest);
    law_blank_text_has_no_word(left);
}

/// How the network is taken away: the profile is copied where there is none, its adapter is removed,
/// and it is assigned once the adapter is gone, whether it was removed now or had been before.
pub proof fn law_profile_is_assigned_without_an_adapter(event: AirGapEvent, action: AirGapAction)
    requires
        gap_follows(event, action),
    ensures
        action is Copy <==> (event matches AirGapEvent::Profile(present) && !present),
        action is RemoveAdapter <==> {
            ||| event matches AirGapEvent::Profile(present) && present
            ||| event matches AirGapEvent::Copied(Ok(output)) && output.success
        },
        action is Assign <==> (event matches AirGapEvent::Removed(Ok(output)) && (output.success
            || contains(lossy_text(output.stderr@), "doesn't exist"@))),
        action is Done <==> (event matches AirGapEvent::Assigned(Ok(output)) && output.success),
{
}

/// An operator is told of each step that is taken on the way to the air gap without a failure: of the
/// profile, and of the adapter.
pub proof fn law_gap_steps_are_told(event: AirGapEvent, action: AirGapAction)
    requires
        gap_follows(event, action),
    ensures
        gap_notice(event) is Some <==> event is Profile || action is Assign,
{
}

/// The guest is started from the image that was asked for, as a virtual machine.
pub proof fn law_guest_is_a_virtual_machine(image_alias: Seq<char>)
    ensures
        launch_line(image_alias).len() == 10,
        launch_line(image_alias)[0] == "launch"@,
        launch_line(image_alias)[1] == image_alias,
        launch_line(image_alias)[2] == "bb-test-runner"@,
        launch_line(image_alias)[3] == "--vm"@,
{
}

proof fn lemma_ends_with(head: Seq<char>, s: Seq<char>)
    ensures
        contains(head + s, s),
{
    assert(head + s =~= head + s + Seq::<char>::empty());
    law_contains_means_a_part(head + s, s);
}

/// A step towards a known image, or towards a guest without a network, that failed says why: it gives
/// what the command wrote to its standard error, or the reason why it could not be run.
pub proof fn law_failures_give_their_reason(
    alias: Seq<char>,
    event: ImageEvent,
    action: ImageAction,
    gap_event: AirGapEvent,
    gap_action: AirGapAction,
    name: Seq<char>,
)
    requires
        image_follows(alias, event, action),
        gap_follows(gap_event, gap_action),
    ensures
        action matches ImageAction::Fail(error) ==> match event {
            ImageEvent::Listed(_) => contains(error@, alias),
            ImageEvent::Imported(Ok(output)) => contains(error@, lossy_text(output.stderr@)),
            ImageEvent::Imported(Err(reason)) => contains(error@, reason@),
            ImageEvent::Checksum(Err(reason)) => error@ == reason@,
            ImageEvent::Aliased(Ok(output)) => contains(error@, trim(lossy_text(output.stderr@))),
            ImageEvent::Aliased(Err(reason)) => contains(error@, reason@),
            _ => false,
        },
        gap_action matches AirGapAction::Fail(error) ==> match gap_event {
            AirGapEvent::Copied(Ok(output)) => contains(error@, trim(lossy_text(output.stderr@))),
            AirGapEvent::Copied(Err(reason)) => contains(error@, reason@),
            AirGapEvent::Removed(Ok(output)) => contains(error@, lossy_text(output.stderr@)),
            AirGapEvent::Removed(Err(reason)) => contains(error@, reason@),
            AirGapEvent::Assigned(Ok(output)) => contains(error@, trim(lossy_text(output.stderr@))),
            AirGapEvent::Assigned(Err(reason)) => contains(error@, reason@),
            _ => false,
        },
        contains(airgap_error(name), name),
{
    law_contains_means_a_part(airgap_error(name), name);
    match event {
        ImageEvent::Listed(_) => {
            let head = "Pre-compiled test image '"@;
            let rest = "' missing. Run `scripts/build_image.sh -out "@ + alias + "`."@;
            assert(image_missing(alias) =~= head + alias + rest);
            law_contains_means_a_part(image_missing(alias), alias);
        },
        ImageEvent::Imported(Ok(output)) => {
            lemma_ends_with("Image synchronization error:\n"@, lossy_text(output.stderr@));
        },
        ImageEvent::Imported(Err(reason)) => {
            lemma_ends_with("Incus import failed: "@, reason@);
        },
        ImageEvent::Aliased(outcome) => {
            lemma_host_reason("Failed to bypass alias lock"@, outcome);
        },
        _ => {},
    }
    match gap_event {
        AirGapEvent::Copied(outcome) => {
            lemma_host_reason("Failed to copy default profile"@, outcome);
        },
        AirGapEvent::Removed(Ok(output)) => {
            lemma_ends_with("Failed to remove eth0 from profile:\n"@, lossy_text(output.stderr@));
        },
        AirGapEvent::Removed(Err(reason)) => {
            lemma_ends_with("Failed to execute incus profile device remove: "@, reason@);
        },
        AirGapEvent::Assigned(outcome) => {
            lemma_host_reason("Failed to assign air-gapped profile"@, outcome);
        },
        _ => {},
    }
}

proof fn lemma_host_reason(message: Seq<char>, outcome: Result<CommandOutput, String>)
    ensures
        match outcome {
            Ok(output) => contains(
                host_failure(message, output.code, output.stderr@),
                trim(lossy_text(output.stderr@)),
            ),
            Err(reason) => contains(message + ": "@ + reason@, reason@),
        },
{
    match outcome {
        Ok(output) => {
            let said = trim(lossy_text(output.stderr@));
            let all = host_failure(message, output.code, output.stderr@);
            let head = all.take(all.len() - said.len());
            assert(all =~= head + said);
            lemma_ends_with(head, said);
        },
        Err(reason) => {
            lemma_ends_with(message + ": "@, reason@);
        },
    }
}

} // verus!
