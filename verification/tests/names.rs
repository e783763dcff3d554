use tactical_mapper::classes::{ObjectClass, Rgb, SemanticClass, TerrainClass};
use tactical_mapper::install::{
    connection_string, powershell_literal, prepare_installation, shortcut_script, InstallDecision,
    InstallFailure, InstallStage, StepOutcome,
};

#[test]
fn terrain_names() {
    assert_eq!(TerrainClass::Unknown.as_str(), "unknown");
    assert_eq!(TerrainClass::Drivable.as_str(), "drivable");
    assert_eq!(TerrainClass::NonDrivable.as_str(), "non_drivable");
}

#[test]
fn semantic_names_are_distinct() {
    let names: Vec<&str> = SemanticClass::ALL.iter().map(|class| class.as_str()).collect();
    assert_eq!(names[1], "drivable_terrain");
    assert_eq!(names[9], "other_dynamic");
    for (i, a) in names.iter().enumerate() {
        for b in &names[i + 1..] {
            assert_ne!(a, b);
        }
    }
}

#[test]
fn terrain_and_object_names_are_distinct() {
    let terrain = [TerrainClass::Unknown, TerrainClass::Drivable, TerrainClass::NonDrivable];
    for (i, a) in terrain.iter().enumerate() {
        for b in &terrain[i + 1..] {
            assert_ne!(a.as_str(), b.as_str());
        }
    }
    let objects = [
        ObjectClass::Wall,
        ObjectClass::Pole,
        ObjectClass::Barrier,
        ObjectClass::StaticObstacle,
        ObjectClass::Pedestrian,
        ObjectClass::Vehicle,
        ObjectClass::Cyclist,
        ObjectClass::OtherDynamic,
    ];
    for (i, a) in objects.iter().enumerate() {
        for b in &objects[i + 1..] {
            assert_ne!(a.storage_name(), b.storage_name());
        }
    }
}

#[test]
fn semantic_colours_group_related_classes() {
    assert_eq!(SemanticClass::DrivableTerrain.color(), Rgb { r: 95, g: 190, b: 130 });
    assert_eq!(SemanticClass::Wall.color(), SemanticClass::Barrier.color());
    assert_eq!(SemanticClass::Barrier.color(), SemanticClass::StaticObstacle.color());
    assert_eq!(SemanticClass::Pedestrian.color(), Rgb { r: 240, g: 90, b: 150 });
    assert_eq!(SemanticClass::Unknown.color(), Rgb { r: 150, g: 165, b: 165 });
    assert_ne!(SemanticClass::Pole.color(), SemanticClass::Wall.color());
}

#[test]
fn object_names_match_lowercased_variant_names() {
    for class in [
        ObjectClass::Wall,
        ObjectClass::Pole,
        ObjectClass::Barrier,
        ObjectClass::StaticObstacle,
        ObjectClass::Pedestrian,
        ObjectClass::Vehicle,
        ObjectClass::Cyclist,
        ObjectClass::OtherDynamic,
    ] {
        assert_eq!(class.storage_name(), format!("{:?}", class).to_lowercase());
    }
}

#[test]
fn powershell_literal_doubles_single_quotes() {
    assert_eq!(powershell_literal("C:\\Users\\O'Brien\\Desktop"), "C:\\Users\\O''Brien\\Desktop");
    assert_eq!(powershell_literal("''"), "''''");
    assert_eq!(powershell_literal("plain"), "plain");
    assert_eq!(powershell_literal(""), "");
    assert_eq!(powershell_literal("é'ü"), "é''ü");
}

#[test]
fn powershell_reads_back_the_quoted_text() {
    for text in ["", "'", "a'b''c'", "C:\\Program Files\\O'Neil's", "no quotes"] {
        assert_eq!(powershell_literal(text).replace("''", "'"), text);
    }
}

#[test]
fn powershell_literal_adds_one_character_per_quote_and_pairs_quotes() {
    for text in ["", "'", "a'b''c'", "'''x", "no quotes"] {
        let quoted = powershell_literal(text);
        let quotes = text.chars().filter(|c| *c == '\'').count();
        assert_eq!(quoted.chars().count(), text.chars().count() + quotes);
        for run in quoted.split(|c| c != '\'') {
            assert_eq!(run.len() % 2, 0);
        }
    }
}

#[test]
fn shortcut_script_quotes_each_path() {
    let script = shortcut_script("C:\\D\\Tactical Mapper.lnk", "C:\\A's\\TacticalMapper.exe", "C:\\A's");
    assert_eq!(
        script,
        "$shell = New-Object -ComObject WScript.Shell; $shortcut = $shell.CreateShortcut('C:\\D\\Tactical Mapper.lnk'); $shortcut.TargetPath = 'C:\\A''s\\TacticalMapper.exe'; $shortcut.WorkingDirectory = 'C:\\A''s'; $shortcut.Description = 'Tactical Mapper - offline LiDAR mapping'; $shortcut.Save()"
    );
}

fn run(outcomes: &[StepOutcome]) -> (Vec<bool>, Option<Result<bool, InstallFailure>>) {
    let mut stage = InstallStage::LocateExecutable;
    let mut warnings = Vec::new();
    for &outcome in outcomes {
        match prepare_installation(stage, outcome) {
            InstallDecision::Next { stage: next, warn } => {
                warnings.push(warn);
                stage = next;
            }
            InstallDecision::Finish(result) => return (warnings, Some(result)),
        }
    }
    (warnings, None)
}

#[test]
fn installation_stops_when_already_installed() {
    let (_, result) = run(&[StepOutcome::Done, StepOutcome::Done, StepOutcome::Done, StepOutcome::AlreadyInstalled]);
    assert_eq!(result, Some(Ok(false)));
}

#[test]
fn fresh_installation_launches_the_copy() {
    let (warnings, result) = run(&[StepOutcome::Done, StepOutcome::Done, StepOutcome::Done, StepOutcome::NotInstalled, StepOutcome::Done, StepOutcome::Done, StepOutcome::Done, StepOutcome::Done]);
    assert_eq!(result, Some(Ok(true)));
    assert!(warnings.iter().all(|warn| !warn));
}

#[test]
fn failed_shortcut_only_warns() {
    let (warnings, result) =
        run(&[StepOutcome::Done, StepOutcome::Done, StepOutcome::Done, StepOutcome::NotInstalled, StepOutcome::Done, StepOutcome::Done, StepOutcome::ExitedUnsuccessfully, StepOutcome::Done]);
    assert_eq!(result, Some(Ok(true)));
    assert_eq!(warnings.iter().filter(|warn| **warn).count(), 1);
    let (_, result) = run(&[StepOutcome::Done, StepOutcome::Done, StepOutcome::Done, StepOutcome::NotInstalled, StepOutcome::Done, StepOutcome::Done, StepOutcome::Failed, StepOutcome::Done]);
    assert_eq!(result, Some(Ok(true)));
}

#[test]
fn missing_environment_stops_installation() {
    assert_eq!(run(&[StepOutcome::Done, StepOutcome::Missing]).1, Some(Err(InstallFailure::NoLocalAppData)));
    assert_eq!(
        run(&[StepOutcome::Done, StepOutcome::Done, StepOutcome::Done, StepOutcome::NotInstalled, StepOutcome::Done, StepOutcome::Missing]).1,
        Some(Err(InstallFailure::NoUserProfile))
    );
}

#[test]
fn failed_io_stops_installation() {
    assert_eq!(run(&[StepOutcome::Failed]).1, Some(Err(InstallFailure::Io(InstallStage::LocateExecutable))));
    assert_eq!(
        run(&[StepOutcome::Done, StepOutcome::Done, StepOutcome::Failed]).1,
        Some(Err(InstallFailure::Io(InstallStage::CreateInstallDir)))
    );
    assert_eq!(
        run(&[StepOutcome::Done, StepOutcome::Done, StepOutcome::Done, StepOutcome::NotInstalled, StepOutcome::Failed]).1,
        Some(Err(InstallFailure::Io(InstallStage::CopyExecutable)))
    );
    assert_eq!(
        run(&[StepOutcome::Done, StepOutcome::Done, StepOutcome::Done, StepOutcome::NotInstalled, StepOutcome::Done, StepOutcome::Done, StepOutcome::Done, StepOutcome::Failed]).1,
        Some(Err(InstallFailure::Io(InstallStage::LaunchInstalled)))
    );
}

#[test]
fn connection_settings_default_to_local_database() {
    assert_eq!(
        connection_string(None),
        "host=127.0.0.1 port=5432 user=postgres dbname=tactical_mapper_db"
    );
    assert_eq!(connection_string(Some("host=db".to_string())), "host=db");
}
