use websurfx::bootstrap::{
    Action, Ending, Event, StartupError, State, BIND_ADDRESS,
};
use websurfx::port::{Configuration, PortError, DEFAULT_PORT_TEXT};
use websurfx::routes::{Endpoint, Method};
use websurfx::site::Target;
use websurfx::templates::{load_templates, TemplateFile, TemplateInitError, TemplateRegistry};

fn file(name: &str, content: &str) -> TemplateFile {
    TemplateFile {
        name: String::from(name),
        content: String::from(content),
    }
}

fn pages() -> Vec<TemplateFile> {
    vec![
        file("index.html", "index page"),
        file("search.html", "search page"),
        file("about.html", "about page"),
        file("settings.html", "settings page"),
        file("404.html", "not found page"),
    ]
}

fn started(port: &str) -> Event {
    Event::Started {
        port: Some(String::from(port)),
    }
}

fn run(events: Vec<Event>) -> (State, Vec<Action>) {
    let mut state = State::new();
    let mut actions = Vec::new();
    for event in events {
        let (next, action) = state.step(event);
        state = next;
        actions.push(action);
    }
    (state, actions)
}

fn running() -> State {
    run(vec![
        started("8080"),
        Event::TemplatesRead { files: pages() },
        Event::ServerAssembled,
        Event::Bound,
        Event::Accepting,
    ])
    .0
}

#[test]
fn constants_of_the_listener() {
    assert_eq!(BIND_ADDRESS, "127.0.0.1");
    assert_eq!(DEFAULT_PORT_TEXT, "8080");
}

#[test]
fn a_run_begins_unconfigured() {
    let state = State::new();
    assert!(matches!(state, State::Unconfigured));
    assert!(state.config().is_none());
    assert!(state.registry().is_none());
    assert!(state.site().is_none());
    assert!(state.ending().is_none());
}

#[test]
fn startup_goes_through_every_stage_in_order() {
    let (state, action) = State::new().step(started("8080"));
    assert!(matches!(state, State::Configured { .. }));
    assert_eq!(action, Action::ReadTemplates);
    assert_eq!(state.config().map(|c| c.port()), Some(8080));
    assert!(state.registry().is_none());

    let (state, action) = state.step(Event::TemplatesRead { files: pages() });
    assert!(matches!(state, State::TemplatesLoaded { .. }));
    assert_eq!(action, Action::Assemble);
    assert_eq!(state.registry().map(|r| r.len()), Some(5));
    assert!(state.site().is_none());

    let (state, action) = state.step(Event::ServerAssembled);
    assert!(matches!(state, State::Assembled { .. }));
    assert_eq!(action, Action::Bind { port: 8080 });
    assert!(state.site().is_some());

    let (state, action) = state.step(Event::Bound);
    assert!(matches!(state, State::Listening { .. }));
    assert_eq!(action, Action::Serve);

    let (state, action) = state.step(Event::Accepting);
    assert!(matches!(state, State::Running { .. }));
    assert_eq!(action, Action::AwaitShutdown);
    assert_eq!(state.config().map(|c| c.port()), Some(8080));
    assert_eq!(state.registry().map(|r| r.len()), Some(5));

    let (state, action) = state.step(Event::ShutdownRequested);
    assert!(matches!(
        state,
        State::Terminated {
            ending: Ending::ShutDown
        }
    ));
    assert_eq!(action, Action::Exit { failed: false });
}

#[test]
fn the_default_port_is_used_where_none_is_given() {
    let (state, action) = State::new().step(Event::Started { port: None });
    assert_eq!(action, Action::ReadTemplates);
    assert_eq!(state.config().map(|c| c.port()), Some(8080));
}

#[test]
fn the_port_given_is_the_port_bound() {
    let (_, actions) = run(vec![
        started("1024"),
        Event::TemplatesRead { files: pages() },
        Event::ServerAssembled,
    ]);
    assert_eq!(
        actions,
        vec![
            Action::ReadTemplates,
            Action::Assemble,
            Action::Bind { port: 1024 }
        ]
    );
}

#[test]
fn an_invalid_port_ends_the_run_before_anything_is_read() {
    for (text, expected) in [
        ("80", PortError::OutOfRange),
        ("99999", PortError::OutOfRange),
        ("99999999999999999999", PortError::OutOfRange),
        ("abc", PortError::InvalidFormat(String::from("abc"))),
        ("", PortError::InvalidFormat(String::new())),
    ] {
        let (state, action) = State::new().step(started(text));
        assert_eq!(action, Action::Exit { failed: true });
        assert!(state.config().is_none());
        match state.ending() {
            Some(Ending::StartupFailed(StartupError::Configuration(e))) => {
                assert_eq!(*e, expected)
            }
            other => panic!("unexpected ending: {:?}", other),
        }
    }
}

#[test]
fn a_malformed_template_ends_the_run() {
    let mut files = pages();
    files.push(file("broken.html", "{{#if x}}"));
    let (state, actions) = run(vec![started("8080"), Event::TemplatesRead { files }]);
    assert_eq!(
        actions,
        vec![Action::ReadTemplates, Action::Exit { failed: true }]
    );
    assert!(state.registry().is_none());
    match state.ending() {
        Some(Ending::StartupFailed(StartupError::Templates(TemplateInitError::Malformed {
            file,
            ..
        }))) => assert_eq!(file, "broken.html"),
        other => panic!("unexpected ending: {:?}", other),
    }
}

#[test]
fn an_unreadable_directory_ends_the_run() {
    let (state, actions) = run(vec![started("8080"), Event::TemplatesUnreadable]);
    assert_eq!(
        actions,
        vec![Action::ReadTemplates, Action::Exit { failed: true }]
    );
    assert!(matches!(
        state.ending(),
        Some(Ending::StartupFailed(StartupError::Templates(
            TemplateInitError::DirectoryUnreadable
        )))
    ));
}

#[test]
fn an_empty_directory_is_a_valid_start() {
    let (state, actions) = run(vec![
        started("8080"),
        Event::TemplatesRead { files: Vec::new() },
    ]);
    assert_eq!(actions, vec![Action::ReadTemplates, Action::Assemble]);
    assert_eq!(state.registry().map(|r| r.len()), Some(0));
}

#[test]
fn a_failed_bind_ends_the_run() {
    let (state, actions) = run(vec![
        started("8080"),
        Event::TemplatesRead { files: pages() },
        Event::ServerAssembled,
        Event::BindFailed,
    ]);
    assert_eq!(actions[3], Action::Exit { failed: true });
    assert!(matches!(
        state.ending(),
        Some(Ending::StartupFailed(StartupError::Bind))
    ));
    assert!(state.site().is_none());
}

#[test]
fn a_fault_of_the_running_server_ends_the_run() {
    let (state, action) = running().step(Event::ServerFault);
    assert_eq!(action, Action::Exit { failed: true });
    assert!(matches!(state.ending(), Some(Ending::Faulted)));
}

#[test]
fn an_event_out_of_place_changes_nothing() {
    let (state, action) = State::new().step(Event::Bound);
    assert!(matches!(state, State::Unconfigured));
    assert_eq!(action, Action::Nothing);

    let (state, _) = State::new().step(started("8080"));
    for event in [
        started("9090"),
        Event::ServerAssembled,
        Event::Bound,
        Event::BindFailed,
        Event::Accepting,
        Event::ShutdownRequested,
        Event::ServerFault,
    ] {
        let (next, action) = State::new().step(started("8080")).0.step(event);
        assert!(matches!(next, State::Configured { .. }));
        assert_eq!(next.config().map(|c| c.port()), Some(8080));
        assert_eq!(action, Action::Nothing);
    }
    assert!(matches!(state, State::Configured { .. }));

    let (next, action) = running().step(Event::Bound);
    assert!(matches!(next, State::Running { .. }));
    assert_eq!(action, Action::Nothing);
}

#[test]
fn nothing_follows_the_end() {
    let ended = || State::new().step(started("80")).0;
    for event in [
        started("8080"),
        Event::TemplatesRead { files: pages() },
        Event::TemplatesUnreadable,
        Event::ServerAssembled,
        Event::Bound,
        Event::BindFailed,
        Event::Accepting,
        Event::ShutdownRequested,
        Event::ServerFault,
    ] {
        let (state, action) = ended().step(event);
        assert_eq!(action, Action::Nothing);
        assert!(matches!(
            state.ending(),
            Some(Ending::StartupFailed(StartupError::Configuration(
                PortError::OutOfRange
            )))
        ));
    }
}

#[test]
fn end_to_end_scenario() {
    let state = running();
    let registry = state.registry().unwrap();
    let site = state.site().unwrap();
    assert_eq!(state.config().map(|c| c.port()), Some(8080));

    let target = site.resolve(Method::from_name("GET"), "/");
    assert_eq!(target, Target::Page(Endpoint::Index));
    assert_eq!(
        registry.engine().render("index", &()).unwrap(),
        "index page"
    );

    let target = site.resolve(Method::from_name("GET"), "/nope");
    assert_eq!(target, Target::Page(Endpoint::NotFound));
    assert_eq!(
        registry.engine().render("404", &()).unwrap(),
        "not found page"
    );

    let target = site.resolve(Method::from_name("GET"), "/static/app.css");
    assert_eq!(
        target,
        Target::Asset {
            mount: 0,
            names: vec![String::from("app.css")]
        }
    );
    assert_eq!(site.mounts()[0].fs_root, "./public/static");

    let target = site.resolve(Method::from_name("GET"), "/static/../secret");
    assert_eq!(target, Target::Rejected { mount: 0 });
}

#[test]
fn the_registry_is_shared_not_copied() {
    let state = running();
    let a = state.registry().unwrap();
    let b = state.registry().unwrap();
    assert!(std::sync::Arc::ptr_eq(&a, &b));
    let (state, _) = state.step(Event::ShutdownRequested);
    assert!(state.registry().is_none());
    assert_eq!(a.len(), 5);
    assert!(a.has_template("index"));
}

#[test]
fn a_loading_that_went_well_moves_on_to_the_assembly() {
    let config = Configuration::new(9000).unwrap();
    let loaded = load_templates(&pages(), ".html");
    assert!(loaded.is_ok());
    let (state, action) = State::conclude_loading(config, loaded);
    assert_eq!(action, Action::Assemble);
    assert!(matches!(state, State::TemplatesLoaded { .. }));
    assert_eq!(state.config().map(|c| c.port()), Some(9000));
    assert_eq!(state.registry().map(|r| r.len()), Some(5));

    let (state, action) = State::conclude_loading(config, Ok(TemplateRegistry::new()));
    assert_eq!(action, Action::Assemble);
    assert_eq!(state.registry().map(|r| r.len()), Some(0));
}

#[test]
fn a_loading_that_failed_ends_the_run_whatever_the_cause() {
    let config = Configuration::new(9000).unwrap();
    let refused = load_templates(&vec![file("broken.html", "{{#if x}}")], ".html");
    assert!(refused.is_err());
    let (state, action) = State::conclude_loading(config, refused);
    assert_eq!(action, Action::Exit { failed: true });
    assert!(state.registry().is_none());
    assert!(state.config().is_none());
    match state.ending() {
        Some(Ending::StartupFailed(StartupError::Templates(TemplateInitError::Malformed {
            file,
            ..
        }))) => assert_eq!(file, "broken.html"),
        other => panic!("unexpected ending: {:?}", other),
    }

    let (state, action) =
        State::conclude_loading(config, Err(TemplateInitError::DirectoryUnreadable));
    assert_eq!(action, Action::Exit { failed: true });
    assert!(matches!(
        state.ending(),
        Some(Ending::StartupFailed(StartupError::Templates(
            TemplateInitError::DirectoryUnreadable
        )))
    ));
}

#[test]
fn files_without_a_template_always_load() {
    let files = vec![
        file("notes.txt", "{{#if x}}"),
        file("broken.htm", "{{"),
        file("html", "{{#each}}"),
    ];
    let (state, actions) = run(vec![started("8080"), Event::TemplatesRead { files }]);
    assert_eq!(actions, vec![Action::ReadTemplates, Action::Assemble]);
    assert_eq!(state.registry().map(|r| r.len()), Some(0));
}
