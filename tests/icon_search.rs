use notification_popup::icons::{IconSearch, IconSearchSpace, ProbeKind, SearchStep};

struct FakeFs {
    files: Vec<String>,
    dirs: Vec<String>,
}

impl FakeFs {
    fn new(files: &[&str], dirs: &[&str]) -> FakeFs {
        FakeFs {
            files: files.iter().map(|s| s.to_string()).collect(),
            dirs: dirs.iter().map(|s| s.to_string()).collect(),
        }
    }

    fn answer(&self, kind: ProbeKind, path: &str) -> bool {
        let is_dir = self.dirs.iter().any(|d| d == path);
        match kind {
            ProbeKind::IsDir => is_dir,
            ProbeKind::Exists => is_dir || self.files.iter().any(|f| f == path),
        }
    }
}

fn plain_space() -> IconSearchSpace {
    IconSearchSpace::new(None, None, None)
}

fn run(space: IconSearchSpace, name: &str, fs: &FakeFs) -> (Option<String>, Vec<(ProbeKind, String)>) {
    run_with(space, name, |kind, path| fs.answer(kind, path))
}

fn run_with<F: Fn(ProbeKind, &str) -> bool>(
    space: IconSearchSpace,
    name: &str,
    answer: F,
) -> (Option<String>, Vec<(ProbeKind, String)>) {
    let mut search = IconSearch::new(space, name.to_string());
    let mut probes = Vec::new();
    loop {
        match search.pending() {
            SearchStep::Probe(kind, path) => {
                let yes = answer(kind, &path);
                probes.push((kind, path));
                search.answer(yes);
            }
            SearchStep::Found(path) => return (Some(path), probes),
            SearchStep::NotFound => return (None, probes),
        }
    }
}

#[test]
fn existing_path_is_returned_unchanged() {
    let fs = FakeFs::new(&["/home/u/pics/logo.png"], &["/usr/share/icons"]);
    let (found, probes) = run(plain_space(), "/home/u/pics/logo.png", &fs);
    assert_eq!(found, Some("/home/u/pics/logo.png".to_string()));
    assert_eq!(probes, vec![(ProbeKind::Exists, "/home/u/pics/logo.png".to_string())]);
}

#[test]
fn absent_icon_is_not_found() {
    let fs = FakeFs::new(&[], &[]);
    let (found, probes) = run(plain_space(), "battery", &fs);
    assert_eq!(found, None);
    // the name itself, then each of the six roots, each missing
    assert_eq!(probes.len(), 7);
    assert!(probes.iter().all(|(k, _)| *k == ProbeKind::Exists));
}

#[test]
fn absent_icon_with_present_theme_is_not_found() {
    let fs = FakeFs::new(
        &["/usr/share/icons/Adwaita/scalable/status/other.svg"],
        &["/usr/share/icons", "/usr/share/icons/Adwaita/scalable/status"],
    );
    let (found, probes) = run(plain_space(), "battery", &fs);
    assert_eq!(found, None);
    let file_probes = probes.iter().filter(|(_, p)| p.ends_with("battery.svg")).count();
    assert_eq!(file_probes, 1);
}

#[test]
fn adwaita_battery_scenario() {
    let fs = FakeFs::new(
        &["/usr/share/icons/Adwaita/scalable/status/battery.svg"],
        &["/usr/share/icons", "/usr/share/icons/Adwaita/scalable/status"],
    );
    let space = IconSearchSpace::new(Some("Adwaita".to_string()), None, None);
    let (found, _) = run(space, "battery", &fs);
    assert_eq!(found, Some("/usr/share/icons/Adwaita/scalable/status/battery.svg".to_string()));
}

#[test]
fn earlier_base_directory_wins() {
    let fs = FakeFs::new(
        &[
            "/usr/share/icons/Adwaita/64x64/apps/term.png",
            "/usr/local/share/icons/Adwaita/scalable/apps/term.svg",
        ],
        &[
            "/usr/share/icons",
            "/usr/local/share/icons",
            "/usr/share/icons/Adwaita/64x64/apps",
            "/usr/local/share/icons/Adwaita/scalable/apps",
        ],
    );
    let (found, _) = run(plain_space(), "term", &fs);
    assert_eq!(found, Some("/usr/share/icons/Adwaita/64x64/apps/term.png".to_string()));
}

#[test]
fn earlier_size_bucket_wins_over_category_and_extension() {
    let fs = FakeFs::new(
        &[
            "/usr/share/icons/Adwaita/symbolic/mimetypes/doc.xpm",
            "/usr/share/icons/Adwaita/16x16/apps/doc.svg",
        ],
        &[
            "/usr/share/icons",
            "/usr/share/icons/Adwaita/symbolic/mimetypes",
            "/usr/share/icons/Adwaita/16x16/apps",
        ],
    );
    let (found, _) = run(plain_space(), "doc", &fs);
    assert_eq!(found, Some("/usr/share/icons/Adwaita/symbolic/mimetypes/doc.xpm".to_string()));
}

#[test]
fn earlier_category_and_extension_win() {
    let fs = FakeFs::new(
        &[
            "/usr/share/icons/Adwaita/scalable/status/net.png",
            "/usr/share/icons/Adwaita/scalable/status/net.svgz",
            "/usr/share/icons/Adwaita/scalable/devices/net.svg",
        ],
        &[
            "/usr/share/icons",
            "/usr/share/icons/Adwaita/scalable/status",
            "/usr/share/icons/Adwaita/scalable/devices",
        ],
    );
    let (found, _) = run(plain_space(), "net", &fs);
    assert_eq!(found, Some("/usr/share/icons/Adwaita/scalable/status/net.svgz".to_string()));
}

#[test]
fn missing_directory_prunes_file_probes() {
    let fs = FakeFs::new(&[], &["/usr/share/icons"]);
    let (found, probes) = run(plain_space(), "x", &fs);
    assert_eq!(found, None);
    // one directory probe per size and category, and no file probe at all
    let dir_probes = probes.iter().filter(|(k, _)| *k == ProbeKind::IsDir).count();
    assert_eq!(dir_probes, 9 * 7);
    assert!(probes.iter().all(|(_, p)| !p.ends_with("/x.svg") && !p.ends_with("/x.png")));
}

#[test]
fn configured_theme_is_searched() {
    let fs = FakeFs::new(
        &["/usr/share/icons/Papirus/48x48/apps/firefox.png"],
        &["/usr/share/icons", "/usr/share/icons/Papirus/48x48/apps"],
    );
    let space = IconSearchSpace::new(Some("Papirus".to_string()), None, None);
    let (found, _) = run(space, "firefox", &fs);
    assert_eq!(found, Some("/usr/share/icons/Papirus/48x48/apps/firefox.png".to_string()));
    let (fallback, _) = run(plain_space(), "firefox", &fs);
    assert_eq!(fallback, None);
}

#[test]
fn data_dir_roots_are_searched_last() {
    let fs = FakeFs::new(
        &["/opt/data/icons/Adwaita/22x22/places/home.png"],
        &["/opt/data/icons", "/opt/data/icons/Adwaita/22x22/places"],
    );
    let space = IconSearchSpace::new(None, None, Some("/nowhere:/opt/data/".to_string()));
    let (found, probes) = run(space, "home", &fs);
    assert_eq!(found, Some("/opt/data/icons/Adwaita/22x22/places/home.png".to_string()));
    assert_eq!(probes[7], (ProbeKind::Exists, "/nowhere/icons".to_string()));
}

#[test]
fn answers_after_a_result_change_nothing() {
    let mut search = IconSearch::new(plain_space(), "/a".to_string());
    search.answer(true);
    search.answer(false);
    match search.pending() {
        SearchStep::Found(p) => assert_eq!(p, "/a"),
        _ => panic!("expected a result"),
    }
}

#[test]
fn search_space_tables() {
    let space = IconSearchSpace::new(None, Some("/home/ann".to_string()), Some("/usr/share/:/x".to_string()));
    assert_eq!(space.theme_name, "Adwaita");
    assert_eq!(
        space.base_directories,
        vec![
            "/usr/share/icons",
            "/usr/local/share/icons",
            "/home/ann/.icons",
            "/home/ann/.local/share/icons",
            "/usr/share/pixmaps",
            "/var/lib/flatpak/exports/share/icons",
            "/usr/share/icons",
            "/x/icons",
        ]
    );
    assert_eq!(
        space.size_buckets,
        vec!["scalable", "symbolic", "16x16", "22x22", "24x24", "32x32", "48x48", "64x64", "128x128"]
    );
    assert_eq!(
        space.categories,
        vec!["apps", "status", "actions", "devices", "categories", "places", "mimetypes"]
    );
    assert_eq!(space.extensions, vec!["svg", "svgz", "png", "xpm"]);
}

#[test]
fn home_roots_stay_unexpanded_without_home() {
    let space = IconSearchSpace::new(None, None, None);
    assert_eq!(space.base_directories[2], "~/.icons");
    assert_eq!(space.base_directories[3], "~/.local/share/icons");
    assert_eq!(space.base_directories.len(), 6);
}

#[test]
fn worst_case_probe_count() {
    // every root and every theme directory exists, but no icon file does
    let (found, probes) = run_with(plain_space(), "ghost", |kind, path| match kind {
        ProbeKind::IsDir => true,
        ProbeKind::Exists => !path.ends_with("ghost.svg")
            && !path.ends_with("ghost.svgz")
            && !path.ends_with("ghost.png")
            && !path.ends_with("ghost.xpm")
            && path != "ghost",
    });
    assert_eq!(found, None);
    assert_eq!(probes.len(), 1 + 6 * (1 + 9 * 7 * (1 + 4)));
}
