//! Assembling the command that starts a game.

use vstd::prelude::*;
use vstd::string::StringExecFns;
use crate::disk::DiskSnapshot;
use crate::engine_data::EngineData;
use crate::engine_object::EngineObject;
use crate::graphics_data::{hires_files, spec_hires_files};
use crate::iwad_data::IWadID;
use crate::iwad_object::IWadObject;
use crate::text::{join_path, joined};

verus! {

/// The words that `shlex::split` cuts a text into, by the rules of a POSIX
/// shell; `None` where the text ends inside a quotation or after a lone
/// backslash.
pub uninterp spec fn shlex_split(text: Seq<char>) -> Option<Seq<Seq<char>>>;

/// Calls `shlex::split`, which reads nothing but its argument: the same
/// text always gives the same words.
#[verifier::external_body]
fn split_words(text: &str) -> (words: Option<Vec<String>>)
    ensures
        words.deep_view() == shlex_split(text@),
{
    shlex::split(text)
}

/// An executable and the arguments to start it with.
#[derive(Clone, Debug)]
pub struct LaunchPlan {
    pub executable: String,
    pub arguments: Vec<String>,
}

/// What a `LaunchPlan` holds, as text.
pub struct LaunchPlanView {
    pub executable: Seq<char>,
    pub arguments: Seq<Seq<char>>,
}

impl DeepView for LaunchPlan {
    type V = LaunchPlanView;

    open spec fn deep_view(&self) -> LaunchPlanView {
        LaunchPlanView {
            executable: self.executable@,
            arguments: self.arguments.deep_view(),
        }
    }
}

/// Why no game was started.
#[derive(Clone, Debug)]
pub enum LaunchError {
    /// No engine is selected.
    NoEngineSelected,
    /// No game is selected.
    NoPrimarySelected,
    /// The engine's executable, at the path given, is not on disk.
    ExecutableNotFound(String),
    /// The primary archive, at the path given, is not on disk.
    PrimaryArchiveNotFound(String),
    /// The extra switches cannot be cut into words.
    InvalidSwitches,
}

/// What a `LaunchError` holds, as text.
pub enum LaunchErrorView {
    NoEngineSelected,
    NoPrimarySelected,
    ExecutableNotFound(Seq<char>),
    PrimaryArchiveNotFound(Seq<char>),
    InvalidSwitches,
}

impl DeepView for LaunchError {
    type V = LaunchErrorView;

    open spec fn deep_view(&self) -> LaunchErrorView {
        match self {
            LaunchError::NoEngineSelected => LaunchErrorView::NoEngineSelected,
            LaunchError::NoPrimarySelected => LaunchErrorView::NoPrimarySelected,
            LaunchError::ExecutableNotFound(path) => LaunchErrorView::ExecutableNotFound(path@),
            LaunchError::PrimaryArchiveNotFound(path) => LaunchErrorView::PrimaryArchiveNotFound(
                path@,
            ),
            LaunchError::InvalidSwitches => LaunchErrorView::InvalidSwitches,
        }
    }
}

/// The message that tells a user of the error `error`.
pub open spec fn message_of(error: LaunchErrorView) -> Seq<char> {
    match error {
        LaunchErrorView::NoEngineSelected => "Doom Engine not specified."@,
        LaunchErrorView::NoPrimarySelected => "Game not specified."@,
        LaunchErrorView::ExecutableNotFound(path) => "Executable file <b>"@ + path
            + "</b> not found."@,
        LaunchErrorView::PrimaryArchiveNotFound(path) => "IWAD file <b>"@ + path
            + "</b> not found."@,
        LaunchErrorView::InvalidSwitches => "Extra switches are not valid."@,
    }
}

impl LaunchError {
    /// The message to show to the user.
    pub fn message(&self) -> (text: String)
        ensures
            text@ == message_of(self.deep_view()),
    {
        match self {
            LaunchError::NoEngineSelected => String::from_str("Doom Engine not specified."),
            LaunchError::NoPrimarySelected => String::from_str("Game not specified."),
            LaunchError::ExecutableNotFound(path) => {
                String::from_str("Executable file <b>").concat(path.as_str()).concat(
                    "</b> not found.",
                )
            },
            LaunchError::PrimaryArchiveNotFound(path) => {
                String::from_str("IWAD file <b>").concat(path.as_str()).concat("</b> not found.")
            },
            LaunchError::InvalidSwitches => String::from_str("Extra switches are not valid."),
        }
    }
}

/// The result of a launch, as text.
pub open spec fn outcome(result: Result<LaunchPlan, LaunchError>) -> Result<
    LaunchPlanView,
    LaunchErrorView,
> {
    match result {
        Ok(plan) => Ok(plan.deep_view()),
        Err(error) => Err(error.deep_view()),
    }
}

/// The arguments that load the archives `paths`: nothing for none, else
/// `-file` and the paths.
pub open spec fn file_group(paths: Seq<Seq<char>>) -> Seq<Seq<char>> {
    if paths.len() == 0 {
        Seq::empty()
    } else {
        seq!["-file"@] + paths
    }
}

/// The paths of the asset files of `variant` below the folder `root`.
pub open spec fn bundle_paths(root: Seq<char>, variant: IWadID) -> Seq<Seq<char>> {
    spec_hires_files(variant).map_values(|file: &'static str| joined(root, file@))
}

/// High-resolution graphics are loaded: they are asked for, the engine can
/// load them and their folder is on disk.
pub open spec fn loads_hires(
    engine: EngineData,
    hires: bool,
    graphics_path: Seq<char>,
    disk: Set<Seq<char>>,
) -> bool {
    hires && engine.spec_supports_hires() && disk.contains(graphics_path)
}

/// The words that the extra switches stand for: none for an empty text,
/// else the words it was cut into.
pub open spec fn switch_words(
    extra_switches: Seq<char>,
    words: Option<Seq<Seq<char>>>,
) -> Option<Seq<Seq<char>>> {
    if extra_switches.len() == 0 {
        Some(Seq::empty())
    } else {
        words
    }
}

/// The arguments of a launch, in order: the primary archive, the add-ons
/// found for it, the add-ons that the user chose, the extra switches, and
/// the high-resolution graphics.
pub open spec fn launch_arguments(
    iwad_file: Seq<char>,
    pwad_files: Seq<Seq<char>>,
    user_pwad_files: Seq<Seq<char>>,
    switches: Seq<Seq<char>>,
    graphics: Seq<Seq<char>>,
) -> Seq<Seq<char>> {
    seq!["-iwad"@, iwad_file] + file_group(pwad_files) + file_group(user_pwad_files) + switches
        + file_group(graphics)
}

/// What a launch comes to, where `words` is what the extra switches were
/// cut into and `disk` holds the paths that exist.
pub open spec fn launch_model(
    engine: EngineData,
    variant: IWadID,
    iwad_file: Seq<char>,
    pwad_files: Seq<Seq<char>>,
    user_pwad_files: Seq<Seq<char>>,
    hires: bool,
    graphics_path: Seq<char>,
    extra_switches: Seq<char>,
    words: Option<Seq<Seq<char>>>,
    disk: Set<Seq<char>>,
) -> Result<LaunchPlanView, LaunchErrorView> {
    let executable = engine.spec_executable_for(variant)@;
    if !disk.contains(executable) {
        Err(LaunchErrorView::ExecutableNotFound(executable))
    } else if !disk.contains(iwad_file) {
        Err(LaunchErrorView::PrimaryArchiveNotFound(iwad_file))
    } else if switch_words(extra_switches, words) is None {
        Err(LaunchErrorView::InvalidSwitches)
    } else {
        Ok(
            LaunchPlanView {
                executable,
                arguments: launch_arguments(
                    iwad_file,
                    pwad_files,
                    user_pwad_files,
                    switch_words(extra_switches, words)->0,
                    if loads_hires(engine, hires, graphics_path, disk) {
                        bundle_paths(graphics_path, variant)
                    } else {
                        Seq::empty()
                    },
                ),
            },
        )
    }
}

/// A launch that is possible starts the executable that the engine has for
/// the game's title, which is on disk as the game is, and names the game
/// first.
pub proof fn lemma_launch_plan(
    engine: EngineData,
    variant: IWadID,
    iwad_file: Seq<char>,
    pwad_files: Seq<Seq<char>>,
    user_pwad_files: Seq<Seq<char>>,
    hires: bool,
    graphics_path: Seq<char>,
    extra_switches: Seq<char>,
    words: Option<Seq<Seq<char>>>,
    disk: Set<Seq<char>>,
)
    requires
        launch_model(
            engine,
            variant,
            iwad_file,
            pwad_files,
            user_pwad_files,
            hires,
            graphics_path,
            extra_switches,
            words,
            disk,
        ) is Ok,
    ensures
        ({
            let plan = launch_model(
                engine,
                variant,
                iwad_file,
                pwad_files,
                user_pwad_files,
                hires,
                graphics_path,
                extra_switches,
                words,
                disk,
            )->Ok_0;
            &&& plan.executable == engine.spec_executable_for(variant)@
            &&& disk.contains(plan.executable)
            &&& disk.contains(iwad_file)
            &&& plan.arguments.len() >= 2
            &&& plan.arguments[0] == "-iwad"@
            &&& plan.arguments[1] == iwad_file
        }),
{
}

/// A launch fails for want of the executable exactly when the executable
/// that the engine has for the game's title is not on disk, and then names
/// that executable, whatever else is amiss.
pub proof fn lemma_missing_executable(
    engine: EngineData,
    variant: IWadID,
    iwad_file: Seq<char>,
    pwad_files: Seq<Seq<char>>,
    user_pwad_files: Seq<Seq<char>>,
    hires: bool,
    graphics_path: Seq<char>,
    extra_switches: Seq<char>,
    words: Option<Seq<Seq<char>>>,
    disk: Set<Seq<char>>,
)
    ensures
        ({
            let result = launch_model(
                engine,
                variant,
                iwad_file,
                pwad_files,
                user_pwad_files,
                hires,
                graphics_path,
                extra_switches,
                words,
                disk,
            );
            let executable = engine.spec_executable_for(variant)@;
            &&& !disk.contains(executable) <==> result == Err::<LaunchPlanView, LaunchErrorView>(
                LaunchErrorView::ExecutableNotFound(executable),
            )
            &&& !disk.contains(executable) <==> (result matches Err(
                LaunchErrorView::ExecutableNotFound(_),
            ))
        }),
{
}

/// Adds copies of the strings of `more` to the end of `list`.
fn push_all(list: &mut Vec<String>, more: &Vec<String>)
    ensures
        final(list).deep_view() == old(list).deep_view() + more.deep_view(),
{
    let mut i: usize = 0;
    assert(list.deep_view() =~= old(list).deep_view() + more.deep_view().take(0));
    while i < more.len()
        invariant
            i <= more@.len(),
            list.deep_view() == old(list).deep_view() + more.deep_view().take(i as int),
        decreases more.len() - i,
    {
        let ghost before = list.deep_view();
        list.push(more[i].clone());
        assert(list.deep_view() =~= before.push(more@[i as int]@));
        assert(list.deep_view() =~= old(list).deep_view() + more.deep_view().take(i + 1));
        i = i + 1;
    }
    assert(more.deep_view().take(i as int) =~= more.deep_view());
}

/// Adds the arguments that load the archives `paths` to the end of `list`.
fn push_file_group(list: &mut Vec<String>, paths: &Vec<String>)
    ensures
        final(list).deep_view() == old(list).deep_view() + file_group(paths.deep_view()),
{
    if paths.len() > 0 {
        let ghost before = list.deep_view();
        list.push(String::from_str("-file"));
        assert(list.deep_view() =~= before + seq!["-file"@]);
        push_all(list, paths);
        assert(list.deep_view() =~= before + (seq!["-file"@] + paths.deep_view()));
    } else {
        assert(list.deep_view() =~= old(list).deep_view() + Seq::<Seq<char>>::empty());
    }
}

/// Lists the paths of the asset files of `variant` below `graphics_path`.
pub fn hires_paths(graphics_path: &str, variant: IWadID) -> (paths: Vec<String>)
    ensures
        paths.deep_view() == bundle_paths(graphics_path@, variant),
{
    let files = hires_files(variant);
    let mut paths: Vec<String> = Vec::new();
    let mut i: usize = 0;
    while i < files.len()
        invariant
            i <= files@.len(),
            files@ == spec_hires_files(variant),
            paths@.len() == i,
            forall|j: int| 0 <= j < i ==> (#[trigger] paths@[j])@ == joined(graphics_path@, files@[j]@),
        decreases files.len() - i,
    {
        paths.push(join_path(graphics_path, files[i]));
        i = i + 1;
    }
    assert(paths.deep_view() =~= bundle_paths(graphics_path@, variant));
    paths
}

/// Assembles the launch from its parts, the extra switches already cut
/// into `words` (`None` where they cannot be cut).
pub fn assemble_launch(
    engine: &EngineData,
    iwad: &IWadObject,
    pwad_files: &Vec<String>,
    user_pwad_files: &Vec<String>,
    hires: bool,
    graphics_path: &str,
    extra_switches: &str,
    words: Option<Vec<String>>,
    disk: &DiskSnapshot,
) -> (result: Result<LaunchPlan, LaunchError>)
    ensures
        outcome(result) == launch_model(
            *engine,
            iwad.data.id,
            iwad.filename@,
            pwad_files.deep_view(),
            user_pwad_files.deep_view(),
            hires,
            graphics_path@,
            extra_switches@,
            words.deep_view(),
            disk@,
        ),
{
    let executable = engine.executable_for(iwad.data.id);
    if !disk.contains(executable) {
        return Err(LaunchError::ExecutableNotFound(executable.to_owned()));
    }
    if !disk.contains(iwad.filename.as_str()) {
        return Err(LaunchError::PrimaryArchiveNotFound(iwad.filename.clone()));
    }
    let mut arguments: Vec<String> = Vec::new();
    arguments.push(String::from_str("-iwad"));
    arguments.push(iwad.filename.clone());
    assert(arguments.deep_view() =~= seq!["-iwad"@, iwad.filename@]);
    push_file_group(&mut arguments, pwad_files);
    push_file_group(&mut arguments, user_pwad_files);
    if !extra_switches.is_empty() {
        match words {
            Some(words) => {
                push_all(&mut arguments, &words);
            },
            None => {
                return Err(LaunchError::InvalidSwitches);
            },
        }
    } else {
        assert(arguments.deep_view() =~= arguments.deep_view() + Seq::<Seq<char>>::empty());
    }
    if hires && engine.supports_hires() && disk.contains(graphics_path) {
        let graphics = hires_paths(graphics_path, iwad.data.id);
        push_file_group(&mut arguments, &graphics);
    } else {
        assert(arguments.deep_view() =~= arguments.deep_view() + file_group(
            Seq::<Seq<char>>::empty(),
        ));
    }
    Ok(LaunchPlan { executable: executable.to_owned(), arguments })
}

/// Works out how to start `iwad` on `engine`.
///
/// The executable is the one that the engine has for the archive's title.
/// It and the archive must be on disk. The arguments name the archive,
/// then the add-ons found for it, then the add-ons that the user chose,
/// then the words of the extra switches, then the high-resolution graphics
/// where they are asked for.
pub fn build_launch(
    engine: &EngineData,
    iwad: &IWadObject,
    pwad_files: &Vec<String>,
    user_pwad_files: &Vec<String>,
    hires: bool,
    graphics_path: &str,
    extra_switches: &str,
    disk: &DiskSnapshot,
) -> (result: Result<LaunchPlan, LaunchError>)
    ensures
        outcome(result) == launch_model(
            *engine,
            iwad.data.id,
            iwad.filename@,
            pwad_files.deep_view(),
            user_pwad_files.deep_view(),
            hires,
            graphics_path@,
            extra_switches@,
            shlex_split(extra_switches@),
            disk@,
        ),
{
    let words = split_words(extra_switches);
    assemble_launch(
        engine,
        iwad,
        pwad_files,
        user_pwad_files,
        hires,
        graphics_path,
        extra_switches,
        words,
        disk,
    )
}

/// What starting the current selection comes to: an error where no engine
/// or no game is selected, and else the launch of the selected game, with
/// the add-ons found for it, on the selected engine with its settings.
pub open spec fn selection_model(
    engine: Option<EngineObject>,
    iwad: Option<IWadObject>,
    user_pwad_files: Seq<Seq<char>>,
    graphics_path: Seq<char>,
    extra_switches: Seq<char>,
    disk: Set<Seq<char>>,
) -> Result<LaunchPlanView, LaunchErrorView> {
    if engine is None {
        Err(LaunchErrorView::NoEngineSelected)
    } else if iwad is None {
        Err(LaunchErrorView::NoPrimarySelected)
    } else {
        launch_model(
            engine->0.data,
            iwad->0.data.id,
            iwad->0.filename@,
            iwad->0.pwad_files.deep_view(),
            user_pwad_files,
            engine->0.settings.hires,
            graphics_path,
            extra_switches,
            shlex_split(extra_switches),
            disk,
        )
    }
}

/// What is selected, if anything.
pub open spec fn selected<T>(selection: Option<&T>) -> Option<T> {
    match selection {
        Some(item) => Some(*item),
        None => None,
    }
}

/// Works out how to start the selected game on the selected engine.
pub fn launch_doom(
    engine: Option<&EngineObject>,
    iwad: Option<&IWadObject>,
    user_pwad_files: &Vec<String>,
    graphics_path: &str,
    extra_switches: &str,
    disk: &DiskSnapshot,
) -> (result: Result<LaunchPlan, LaunchError>)
    ensures
        outcome(result) == selection_model(
            selected(engine),
            selected(iwad),
            user_pwad_files.deep_view(),
            graphics_path@,
            extra_switches@,
            disk@,
        ),
{
    let engine = match engine {
        Some(engine) => engine,
        None => {
            return Err(LaunchError::NoEngineSelected);
        },
    };
    let iwad = match iwad {
        Some(iwad) => iwad,
        None => {
            return Err(LaunchError::NoPrimarySelected);
        },
    };
    build_launch(
        &engine.data,
        iwad,
        &iwad.pwad_files,
        user_pwad_files,
        engine.settings.hires,
        graphics_path,
        extra_switches,
        disk,
    )
}

/// Lists the paths that a launch looks for on disk: the engine's
/// executable for the archive's title, the archive, and the folder of the
/// high-resolution graphics.
pub fn launch_probes(engine: &EngineData, iwad: &IWadObject, graphics_path: &str) -> (paths: Vec<
    String,
>)
    ensures
        paths.deep_view() == seq![
            engine.spec_executable_for(iwad.data.id)@,
            iwad.filename@,
            graphics_path@,
        ],
{
    let mut paths: Vec<String> = Vec::new();
    paths.push(engine.executable_for(iwad.data.id).to_owned());
    paths.push(iwad.filename.clone());
    paths.push(graphics_path.to_owned());
    assert(paths.deep_view() =~= seq![
        engine.spec_executable_for(iwad.data.id)@,
        iwad.filename@,
        graphics_path@,
    ]);
    paths
}

} // verus!
