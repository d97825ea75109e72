//! The command line of the test pipeline.

use crate::text::{same_text, texts};
use vstd::prelude::*;

verus! {

/// The image that is used when none is given.
pub const DEFAULT_IMAGE: &'static str = "bouclier-bleu-test-base";

/// The line for an image flag without an image.
pub const IMAGE_MISSING: &'static str = "Error: -img flag requires an image name argument.";

/// How the test pipeline is used.
pub const USAGE: [&'static str; 10] = [
    "Bouclier Bleu Build & Test Pipeline",
    "Usage:",
    "  cargo xtask [-img <image>] prepare-image           - Builds the base testing VM image",
    "  cargo xtask [-img <image>] test                    - Runs all public test suites in VM",
    "  cargo xtask [-img <image>] test unit               - Runs all inline Rust unit tests in VM",
    "  cargo xtask [-img <image>] test component          - Runs all module component tests in VM",
    "  cargo xtask [-img <image>] test integration        - Runs all integration tests in VM",
    "  cargo xtask [-img <image>] test benchmark          - Runs all benchmarks in VM",
    "  cargo xtask [-img <image>] test <category> [test]  - Runs a specific test file within a category",
    "  cargo xtask [-img <image>] test <fuzz/threat>      - Restricted Private Suites",
];

/// What the pipeline is asked to do.
pub enum Task {
    /// Build the base image.
    PrepareImage,
    /// Run tests.
    Test {
        /// The category; none for all public suites.
        category: Option<String>,
        /// The test; none for all of the category.
        target: Option<String>,
    },
    /// Something that it does not know.
    Unknown,
}

/// The model of a task.
pub enum TaskView {
    /// Build the base image.
    PrepareImage,
    /// Run tests.
    Test {
        /// The category.
        category: Option<Seq<char>>,
        /// The test.
        target: Option<Seq<char>>,
    },
    /// Something else.
    Unknown,
}

/// An optional text, in the model.
pub open spec fn text_option(s: Option<String>) -> Option<Seq<char>> {
    match s {
        Some(text) => Some(text@),
        None => None,
    }
}

impl View for Task {
    type V = TaskView;

    open spec fn view(&self) -> TaskView {
        match self {
            Task::PrepareImage => TaskView::PrepareImage,
            Task::Test { category, target } => TaskView::Test {
                category: text_option(*category),
                target: text_option(*target),
            },
            Task::Unknown => TaskView::Unknown,
        }
    }
}

/// A task and the image that it uses.
pub struct Invocation {
    /// The image.
    pub image: String,
    /// The task.
    pub task: Task,
}

/// Whether an argument announces the image.
pub open spec fn is_image_flag(arg: Seq<char>) -> bool {
    arg == "-img"@ || arg == "--img"@
}

/// Where the image is announced; past the end where it is not.
pub open spec fn flag_index(args: Seq<Seq<char>>) -> nat
    decreases args.len(),
{
    if args.len() == 0 || is_image_flag(args[0]) {
        0
    } else {
        1 + flag_index(args.drop_first())
    }
}

/// The arguments without the image flag and the image.
pub open spec fn without_image(args: Seq<Seq<char>>) -> Seq<Seq<char>> {
    let at = flag_index(args) as int;
    if at < args.len() {
        args.take(at) + args.skip(at + 2)
    } else {
        args
    }
}

/// The image, in the model; none where the flag comes last.
pub open spec fn image_of(args: Seq<Seq<char>>) -> Option<Seq<char>> {
    let at = flag_index(args) as int;
    if at >= args.len() {
        Some(DEFAULT_IMAGE@)
    } else if at + 1 < args.len() {
        Some(args[at + 1])
    } else {
        None
    }
}

/// The argument at an index, if there is one.
pub open spec fn arg_at(args: Seq<Seq<char>>, index: int) -> Option<Seq<char>> {
    if index < args.len() {
        Some(args[index])
    } else {
        None
    }
}

/// The task that arguments without an image stand for, in the model.
pub open spec fn task_of(args: Seq<Seq<char>>) -> TaskView {
    match arg_at(args, 0) {
        Some(name) => if name == "prepare-image"@ {
            TaskView::PrepareImage
        } else if name == "test"@ {
            TaskView::Test { category: arg_at(args, 1), target: arg_at(args, 2) }
        } else {
            TaskView::Unknown
        },
        None => TaskView::Unknown,
    }
}

/// A copy of the argument at an index.
fn get(args: &Vec<String>, index: usize) -> (r: Option<String>)
    ensures
        text_option(r) == arg_at(texts(args@), index as int),
{
    if index < args.len() {
        Some(args[index].as_str().to_owned())
    } else {
        None
    }
}

/// Reads the arguments of the pipeline. The image may be announced anywhere; what is left says what
/// to do. An announcement without an image is an error.
pub fn parse_args(args: &Vec<String>) -> (r: Result<Invocation, &'static str>)
    ensures
        r is Ok <==> image_of(texts(args@)) is Some,
        r matches Ok(invocation) ==> {
            &&& image_of(texts(args@)) == Some(invocation.image@)
            &&& invocation.task@ == task_of(without_image(texts(args@)))
        },
        r matches Err(line) ==> line@ == IMAGE_MISSING@,
{
    let ghost all = texts(args@);
    let mut rest: Vec<String> = Vec::new();
    let mut i: usize = 0;
    assert(all.skip(0) =~= all);
    while i < args.len() && !same_text(args[i].as_str(), "-img") && !same_text(
        args[i].as_str(),
        "--img",
    )
        invariant
            all == texts(args@),
            i <= all.len() == args@.len(),
            i + flag_index(all.skip(i as int)) == flag_index(all),
            texts(rest@) == all.take(i as int),
        decreases all.len() - i,
    {
        assert(all[i as int] == args@[i as int]@);
        assert(all.skip(i as int).drop_first() =~= all.skip(i + 1));
        let ghost before = rest@;
        rest.push(args[i].as_str().to_owned());
        assert(texts(rest@) =~= texts(before).push(all[i as int]));
        assert(all.take(i + 1) =~= all.take(i as int).push(all[i as int]));
        i = i + 1;
    }
    let ghost at = i as int;
    assert(at == flag_index(all)) by {
        if at < all.len() {
            assert(all[at] == args@[at]@);
            assert(is_image_flag(all.skip(at)[0]));
        }
    }
    let n: usize = args.len();
    let image = if i < n {
        if n - i < 2 {
            return Err(IMAGE_MISSING);
        }
        assert(all[at + 1] == args@[at + 1]@);
        let image = args[i + 1].as_str().to_owned();
        i = i + 2;
        while i < n
            invariant
                all == texts(args@),
                n == args@.len() == all.len(),
                at + 2 <= i <= n,
                0 <= at,
                texts(rest@) == all.take(at) + all.subrange(at + 2, i as int),
            decreases n - i,
        {
            let ghost before = rest@;
            rest.push(args[i].as_str().to_owned());
            assert(all[i as int] == args@[i as int]@);
            assert(texts(rest@) =~= texts(before).push(all[i as int]));
            assert(texts(rest@) =~= all.take(at) + all.subrange(at + 2, i + 1));
            i = i + 1;
        }
        assert(all.subrange(at + 2, n as int) =~= all.skip(at + 2));
        image
    } else {
        assert(all.take(at) =~= all);
        DEFAULT_IMAGE.to_owned()
    };
    let ghost left = without_image(all);
    assert(texts(rest@) =~= left);
    assert(left.len() == rest@.len());
    let task = if rest.len() == 0 {
        Task::Unknown
    } else {
        assert(left[0] == rest@[0]@);
        if same_text(rest[0].as_str(), "prepare-image") {
            Task::PrepareImage
        } else if same_text(rest[0].as_str(), "test") {
            Task::Test { category: get(&rest, 1), target: get(&rest, 2) }
        } else {
            Task::Unknown
        }
    };
    Ok(Invocation { image, task })
}

proof fn lemma_flag_index(args: Seq<Seq<char>>, at: int)
    requires
        0 <= at <= args.len(),
        forall|i: int| 0 <= i < at ==> #[trigger] args[i] != "-img"@ && args[i] != "--img"@,
        at < args.len() ==> args[at] == "-img"@ || args[at] == "--img"@,
    ensures
        flag_index(args) == at,
    decreases args.len(),
{
    if at > 0 {
        let rest = args.drop_first();
        assert forall|i: int| 0 <= i < at - 1 implies #[trigger] rest[i] != "-img"@ && rest[i]
            != "--img"@ by {
            assert(rest[i] == args[i + 1]);
        }
        assert(args[0] != "-img"@ && args[0] != "--img"@);
        lemma_flag_index(rest, at - 1);
    }
}

/// The image may be announced anywhere: it is the argument behind the first flag, and the two are
/// taken out of what says what to do.
pub proof fn law_image_may_stand_anywhere(
    before: Seq<Seq<char>>,
    flag: Seq<char>,
    image: Seq<char>,
    after: Seq<Seq<char>>,
)
    requires
        forall|i: int| 0 <= i < before.len() ==> #[trigger] before[i] != "-img"@ && before[i]
            != "--img"@,
        flag == "-img"@ || flag == "--img"@,
    ensures
        image_of(before + seq![flag, image] + after) == Some(image),
        without_image(before + seq![flag, image] + after) == before + after,
        image_of(before + seq![flag]) is None,
        image_of(before) == Some("bouclier-bleu-test-base"@),
        without_image(before) == before,
{
    let all = before + seq![flag, image] + after;
    let n = before.len() as int;
    assert forall|i: int| 0 <= i < n implies #[trigger] all[i] != "-img"@ && all[i] != "--img"@ by {
        assert(all[i] == before[i]);
    }
    assert(all[n] == flag);
    lemma_flag_index(all, n);
    assert(all.take(n) + all.skip(n + 2) =~= before + after);
    let cut = before + seq![flag];
    assert forall|i: int| 0 <= i < n implies #[trigger] cut[i] != "-img"@ && cut[i] != "--img"@ by {
        assert(cut[i] == before[i]);
    }
    assert(cut[n] == flag);
    lemma_flag_index(cut, n);
    lemma_flag_index(before, n);
}

/// What the arguments ask for: the image, or tests of the category and by the name that follow, as
/// far as they do; anything else is not known.
pub proof fn law_what_arguments_ask_for(args: Seq<Seq<char>>)
    ensures
        args.len() == 0 ==> task_of(args) is Unknown,
        args.len() > 0 && args[0] == "prepare-image"@ ==> task_of(args) is PrepareImage,
        args.len() == 1 && args[0] == "test"@ ==> task_of(args) == (TaskView::Test {
            category: None,
            target: None,
        }),
        args.len() == 2 && args[0] == "test"@ ==> task_of(args) == (TaskView::Test {
            category: Some(args[1]),
            target: None,
        }),
        args.len() >= 3 && args[0] == "test"@ ==> task_of(args) == (TaskView::Test {
            category: Some(args[1]),
            target: Some(args[2]),
        }),
        args.len() > 0 && args[0] != "test"@ && args[0] != "prepare-image"@ ==> task_of(
            args,
        ) is Unknown,
{
    reveal_strlit("test");
    reveal_strlit("prepare-image");
    assert("test"@.len() == 4 && "prepare-image"@.len() == 13);
}

} // verus!
