//! The template registry: page templates compiled once at startup.

use crate::text::before_last;
use crate::text::ends_with;
use crate::text::strip_suffix;
use crate::text::texts;
use handlebars::Handlebars;
use handlebars::TemplateError;
use vstd::prelude::*;
use vstd::string::*;

verus! {

/// The registry type of the `handlebars` crate, carried as an opaque value.
#[verifier::external_type_specification]
#[verifier::external_body]
pub struct ExHandlebars<'reg>(handlebars::Handlebars<'reg>);

/// The error that `handlebars` reports for a template it refuses.
#[verifier::external_type_specification]
#[verifier::external_body]
pub struct ExTemplateError(handlebars::TemplateError);

/// Template names mapped to the source text registered under them.
pub type TemplateMap = Map<Seq<char>, Seq<char>>;

/// The templates that an engine holds: each registered name with the source
/// text that was compiled under it. The engine is the crate's own; what it
/// holds is known here only through what the three functions below say.
pub uninterp spec fn engine_templates(engine: Handlebars<'static>) -> TemplateMap;

/// `Handlebars::new`: a fresh engine holds no template.
#[verifier::external_body]
fn engine_new() -> (engine: Handlebars<'static>)
    ensures
        engine_templates(engine) == TemplateMap::empty(),
{
    Handlebars::new()
}

/// `Handlebars::register_template_string`: the source is compiled and, if
/// the engine accepts it, stored under `name`, replacing an earlier template
/// of that name; if it does not, the engine is left as it was. Nothing is
/// said of which of the two happens: the engine's parser refuses a text for
/// its syntax, and also where the calling thread has too little stack left
/// for it, so the answer is not a matter of the text alone.
#[verifier::external_body]
fn engine_register(engine: &mut Handlebars<'static>, name: &str, source: &str) -> (r: Result<
    (),
    TemplateError,
>)
    ensures
        r is Ok ==> engine_templates(*final(engine)) == engine_templates(*old(engine)).insert(
            name@,
            source@,
        ),
        r is Err ==> engine_templates(*final(engine)) == engine_templates(*old(engine)),
{
    engine.register_template_string(name, source)
}

/// `Handlebars::has_template`: whether a template is stored under `name`.
#[verifier::external_body]
fn engine_has(engine: &Handlebars<'static>, name: &str) -> (r: bool)
    ensures
        r == engine_templates(*engine).dom().contains(name@),
{
    engine.has_template(name)
}

/// The directory that holds the page templates.
pub const TEMPLATE_DIRECTORY: &'static str = "./public/templates";

/// The ending by which a file of that directory is known as a template.
pub const TEMPLATE_EXTENSION: &'static str = ".html";

/// One file of the template directory: its name within the directory and
/// the text it holds.
#[derive(Debug, PartialEq, Eq)]
pub struct TemplateFile {
    pub name: String,
    pub content: String,
}

/// Why the templates could not be loaded.
#[derive(Debug)]
pub enum TemplateInitError {
    /// The template directory could not be read.
    DirectoryUnreadable,
    /// The engine refused a template file. `file` is its name, `cause` what
    /// the engine reported.
    Malformed { file: String, cause: TemplateError },
}

/// Whether a file of this name is a template, given the extension.
pub open spec fn is_template(file_name: Seq<char>, extension: Seq<char>) -> bool {
    ends_with(file_name, extension)
}

/// The name a template file is registered under: the file name without the
/// extension.
pub open spec fn template_name(file_name: Seq<char>, extension: Seq<char>) -> Seq<char>
    recommends
        is_template(file_name, extension),
{
    before_last(file_name, extension.len())
}

/// The templates held once `files` have been registered, in order, on top of
/// `start`: each template file under its template name, a later file
/// replacing an earlier one of the same name. Other files are passed over.
pub open spec fn registry_after(
    start: TemplateMap,
    files: Seq<TemplateFile>,
    extension: Seq<char>,
) -> TemplateMap
    decreases files.len(),
{
    if files.len() == 0 {
        start
    } else {
        let before = registry_after(start, files.drop_last(), extension);
        let file = files.last();
        if is_template(file.name@, extension) {
            before.insert(template_name(file.name@, extension), file.content@)
        } else {
            before
        }
    }
}

/// The templates that loading `files` gives.
pub open spec fn loaded_templates(files: Seq<TemplateFile>, extension: Seq<char>) -> TemplateMap {
    registry_after(TemplateMap::empty(), files, extension)
}

/// The names under which the templates among `files` are registered, each
/// once, in the order in which they first occur.
pub open spec fn registered_names(files: Seq<TemplateFile>, extension: Seq<char>) -> Seq<Seq<char>>
    decreases files.len(),
{
    if files.len() == 0 {
        Seq::empty()
    } else {
        let before = registered_names(files.drop_last(), extension);
        let file = files.last();
        if is_template(file.name@, extension) && !before.contains(
            template_name(file.name@, extension),
        ) {
            before.push(template_name(file.name@, extension))
        } else {
            before
        }
    }
}

/// How many of `files` are templates.
pub open spec fn template_count(files: Seq<TemplateFile>, extension: Seq<char>) -> nat
    decreases files.len(),
{
    if files.len() == 0 {
        0
    } else if is_template(files.last().name@, extension) {
        template_count(files.drop_last(), extension) + 1
    } else {
        template_count(files.drop_last(), extension)
    }
}

/// Whether one of `files` is a template with the file name `file_name`.
pub open spec fn holds_template_file(
    files: Seq<TemplateFile>,
    extension: Seq<char>,
    file_name: Seq<char>,
) -> bool {
    exists|i: int|
        0 <= i < files.len() && is_template((#[trigger] files[i]).name@, extension)
            && files[i].name@ == file_name
}

/// A list that holds a template counts at least one.
pub proof fn lemma_template_is_counted(files: Seq<TemplateFile>, extension: Seq<char>, i: int)
    requires
        0 <= i < files.len(),
        is_template(files[i].name@, extension),
    ensures
        template_count(files, extension) > 0,
    decreases files.len(),
{
    if i < files.len() - 1 {
        assert(files.drop_last()[i] == files[i]);
        lemma_template_is_counted(files.drop_last(), extension, i);
    }
}

/// The name under which a file is registered, if the file is a template:
/// its name without the extension. Other files give `None`.
pub fn template_name_of(file_name: &str, extension: &str) -> (r: Option<String>)
    ensures
        r is Some <==> is_template(file_name@, extension@),
        r matches Some(name) ==> name@ == template_name(file_name@, extension@),
{
    strip_suffix(file_name, extension)
}

/// What the engine's answer for one template file means for loading: a
/// template that compiled lets loading go on, one that did not ends it with
/// an error that names the file and carries the engine's report.
pub fn check_compiled(file_name: &str, outcome: Result<(), TemplateError>) -> (r: Result<
    (),
    TemplateInitError,
>)
    ensures
        r is Ok <==> outcome is Ok,
        r matches Err(e) ==> e matches TemplateInitError::Malformed { file, cause } && file@
            == file_name@ && outcome == Err::<(), TemplateError>(cause),
{
    match outcome {
        Ok(()) => Ok(()),
        Err(cause) => Err(TemplateInitError::Malformed { file: String::from_str(file_name), cause }),
    }
}

/// The compiled templates, by name. It is built once and never changed.
pub struct TemplateRegistry {
    engine: Handlebars<'static>,
    names: Vec<String>,
}

impl View for TemplateRegistry {
    type V = TemplateMap;

    closed spec fn view(&self) -> TemplateMap {
        engine_templates(self.engine)
    }
}

impl TemplateRegistry {
    #[verifier::type_invariant]
    spec fn names_match_engine(self) -> bool {
        &&& texts(self.names@).no_duplicates()
        &&& texts(self.names@).to_set() == engine_templates(self.engine).dom()
    }

    /// The registered names, in the order in which they were first
    /// registered.
    pub closed spec fn names_view(self) -> Seq<Seq<char>> {
        texts(self.names@)
    }

    /// A registry without templates.
    pub fn new() -> (r: TemplateRegistry)
        ensures
            r@ == TemplateMap::empty(),
            r.names_view().len() == 0,
    {
        let engine = engine_new();
        let names: Vec<String> = Vec::new();
        assert(texts(names@).to_set() =~= engine_templates(engine).dom());
        TemplateRegistry { engine, names }
    }

    /// Whether a template is registered under `name`.
    pub fn has_template(&self, name: &str) -> (r: bool)
        ensures
            r == self@.dom().contains(name@),
    {
        engine_has(&self.engine, name)
    }

    /// The number of templates.
    pub fn len(&self) -> (n: usize)
        ensures
            self@.dom().finite(),
            n == self@.dom().len(),
            n == self.names_view().len(),
    {
        proof {
            use_type_invariant(self);
            texts(self.names@).unique_seq_to_set();
        }
        self.names.len()
    }

    /// The registered names, each once, in the order in which they were
    /// first registered.
    pub fn names(&self) -> (names: &Vec<String>)
        ensures
            texts(names@) == self.names_view(),
            self.names_view().no_duplicates(),
            self.names_view().to_set() == self@.dom(),
    {
        proof {
            use_type_invariant(self);
        }
        &self.names
    }

    /// The engine that holds the compiled templates, for rendering.
    pub fn engine(&self) -> (engine: &Handlebars<'static>)
        ensures
            engine_templates(*engine) == self@,
    {
        &self.engine
    }
}

/// Loads the templates among `files`: every file whose name ends in
/// `extension` is compiled and registered under its name without the
/// extension, in the order given. The first template that the engine refuses
/// ends loading with an error that names the file, and no registry is given
/// out. Files that are no templates are never handed to the engine, so a
/// list without templates always gives a registry, an empty one.
pub fn load_templates(files: &Vec<TemplateFile>, extension: &str) -> (r: Result<
    TemplateRegistry,
    TemplateInitError,
>)
    ensures
        template_count(files@, extension@) == 0 ==> r is Ok,
        r matches Ok(registry) ==> registry@ == loaded_templates(files@, extension@),
        r matches Ok(registry) ==> registry.names_view() == registered_names(files@, extension@),
        r matches Err(e) ==> e matches TemplateInitError::Malformed { file, .. }
            && holds_template_file(files@, extension@, file@),
{
    let mut engine = engine_new();
    let mut names: Vec<String> = Vec::new();
    let mut i: usize = 0;
    while i < files.len()
        invariant
            i <= files.len(),
            engine_templates(engine) == loaded_templates(files@.take(i as int), extension@),
            texts(names@).no_duplicates(),
            texts(names@).to_set() == engine_templates(engine).dom(),
            texts(names@) == registered_names(files@.take(i as int), extension@),
        decreases files.len() - i,
    {
        let file = &files[i];
        assert(files@.take(i + 1).drop_last() == files@.take(i as int));
        match template_name_of(file.name.as_str(), extension) {
            None => {},
            Some(stem) => {
                let known = engine_has(&engine, stem.as_str());
                let outcome = engine_register(&mut engine, stem.as_str(), file.content.as_str());
                match check_compiled(file.name.as_str(), outcome) {
                    Err(e) => {
                        proof {
                            lemma_template_is_counted(files@, extension@, i as int);
                        }
                        return Err(e);
                    },
                    Ok(()) => {
                        if !known {
                            let ghost before = texts(names@);
                            names.push(stem);
                            proof {
                                assert(texts(names@) == before.push(stem@));
                                before.lemma_push_to_set_commute(stem@);
                            }
                        }
                    },
                }
            },
        }
        i += 1;
    }
    assert(files@.take(i as int) == files@);
    Ok(TemplateRegistry { engine, names })
}

/// Files without a template load nothing.
pub proof fn lemma_no_templates_load_nothing(files: Seq<TemplateFile>, extension: Seq<char>)
    requires
        template_count(files, extension) == 0,
    ensures
        loaded_templates(files, extension) == TemplateMap::empty(),
        registered_names(files, extension).len() == 0,
    decreases files.len(),
{
    if files.len() > 0 {
        lemma_no_templates_load_nothing(files.drop_last(), extension);
    }
}

/// Whether some template among `files` is registered under `name`.
pub open spec fn names_template(files: Seq<TemplateFile>, extension: Seq<char>, name: Seq<char>) -> bool {
    exists|i: int|
        0 <= i < files.len() && is_template((#[trigger] files[i]).name@, extension)
            && template_name(files[i].name@, extension) == name
}

/// The text of the last template among `files` that is registered under
/// `name`.
pub open spec fn latest_content(
    files: Seq<TemplateFile>,
    extension: Seq<char>,
    name: Seq<char>,
) -> Seq<char>
    recommends
        names_template(files, extension, name),
    decreases files.len(),
{
    if files.len() == 0 {
        Seq::empty()
    } else if is_template(files.last().name@, extension) && template_name(
        files.last().name@,
        extension,
    ) == name {
        files.last().content@
    } else {
        latest_content(files.drop_last(), extension, name)
    }
}

/// Whether no two of `files` share a file name, as in one directory.
pub open spec fn distinct_file_names(files: Seq<TemplateFile>) -> bool {
    forall|i: int, j: int|
        0 <= i < files.len() && 0 <= j < files.len() && i != j ==> (#[trigger] files[i]).name@
            != (#[trigger] files[j]).name@
}

/// Registering `files` on top of `start` gives, under each name, the text of
/// the last template of that name among `files`, and leaves every other
/// entry of `start` as it was.
pub proof fn lemma_registry_after_entry(
    start: TemplateMap,
    files: Seq<TemplateFile>,
    extension: Seq<char>,
    name: Seq<char>,
)
    ensures
        registry_after(start, files, extension).dom().contains(name) <==> names_template(
            files,
            extension,
            name,
        ) || start.dom().contains(name),
        names_template(files, extension, name) ==> registry_after(start, files, extension)[name]
            == latest_content(files, extension, name),
        !names_template(files, extension, name) ==> registry_after(start, files, extension)[name]
            == start[name],
    decreases files.len(),
{
    if files.len() > 0 {
        let rest = files.drop_last();
        let file = files.last();
        lemma_registry_after_entry(start, rest, extension, name);
        if names_template(rest, extension, name) {
            let i = choose|i: int|
                0 <= i < rest.len() && is_template((#[trigger] rest[i]).name@, extension)
                    && template_name(rest[i].name@, extension) == name;
            assert(files[i] == rest[i]);
        }
        if is_template(file.name@, extension) && template_name(file.name@, extension) == name {
            assert(files[files.len() - 1] == file);
        } else if names_template(files, extension, name) {
            let i = choose|i: int|
                0 <= i < files.len() && is_template((#[trigger] files[i]).name@, extension)
                    && template_name(files[i].name@, extension) == name;
            assert(rest[i] == files[i]);
        }
    }
}

/// Loading is idempotent: registering the same files once more changes
/// nothing.
pub proof fn lemma_reload_changes_nothing(
    start: TemplateMap,
    files: Seq<TemplateFile>,
    extension: Seq<char>,
)
    ensures
        registry_after(registry_after(start, files, extension), files, extension)
            == registry_after(start, files, extension),
{
    let once = registry_after(start, files, extension);
    let twice = registry_after(once, files, extension);
    assert forall|name: Seq<char>| #[trigger] twice.dom().contains(name) == once.dom().contains(name) by {
        lemma_registry_after_entry(start, files, extension, name);
        lemma_registry_after_entry(once, files, extension, name);
    }
    assert forall|name: Seq<char>| #[trigger] once.dom().contains(name) implies twice[name] == once[name] by {
        lemma_registry_after_entry(start, files, extension, name);
        lemma_registry_after_entry(once, files, extension, name);
    }
}

/// A file name is its template name followed by the extension, so two
/// template files with one template name have one file name.
proof fn lemma_template_name_injective(a: Seq<char>, b: Seq<char>, extension: Seq<char>)
    requires
        is_template(a, extension),
        is_template(b, extension),
        template_name(a, extension) == template_name(b, extension),
    ensures
        a == b,
{
    assert(a =~= template_name(a, extension) + extension);
    assert(b =~= template_name(b, extension) + extension);
}

/// A directory of templates: where no two files share a name, as in one
/// directory, the registry that loading gives holds as many entries as
/// there are template files, and each template file is found under its name
/// without the extension, with its own text.
pub proof fn lemma_valid_directory(files: Seq<TemplateFile>, extension: Seq<char>)
    requires
        distinct_file_names(files),
    ensures
        loaded_templates(files, extension).dom().finite(),
        loaded_templates(files, extension).dom().len() == template_count(files, extension),
        forall|i: int|
            0 <= i < files.len() && is_template((#[trigger] files[i]).name@, extension) ==> {
                let name = template_name(files[i].name@, extension);
                loaded_templates(files, extension).dom().contains(name) && loaded_templates(
                    files,
                    extension,
                )[name] == files[i].content@
            },
    decreases files.len(),
{
    if files.len() > 0 {
        let rest = files.drop_last();
        let file = files.last();
        assert forall|i: int| 0 <= i < rest.len() implies (#[trigger] rest[i]) == files[i] by {}
        lemma_valid_directory(rest, extension);
        let before = loaded_templates(rest, extension);
        if is_template(file.name@, extension) {
            let name = template_name(file.name@, extension);
            lemma_registry_after_entry(TemplateMap::empty(), rest, extension, name);
            if names_template(rest, extension, name) {
                let i = choose|i: int|
                    0 <= i < rest.len() && is_template((#[trigger] rest[i]).name@, extension)
                        && template_name(rest[i].name@, extension) == name;
                lemma_template_name_injective(rest[i].name@, file.name@, extension);
                assert(files[i].name@ == files[files.len() - 1].name@);
            }
            assert(!before.dom().contains(name));
        }
        assert forall|i: int|
            0 <= i < files.len() && is_template((#[trigger] files[i]).name@, extension) implies {
            let name = template_name(files[i].name@, extension);
            loaded_templates(files, extension).dom().contains(name) && loaded_templates(
                files,
                extension,
            )[name] == files[i].content@
        } by {
            if i < files.len() - 1 {
                assert(rest[i] == files[i]);
                if is_template(file.name@, extension) && template_name(file.name@, extension)
                    == template_name(files[i].name@, extension) {
                    lemma_template_name_injective(files[i].name@, file.name@, extension);
                    assert(files[i].name@ == files[files.len() - 1].name@);
                }
            }
        }
    }
}

} // verus!
