use zeroengine::components::SavedEntityId;
use zeroengine::packaging::{
    asset_copy_action, current_build_profile, dist_entry_skipped, executable_file_name, is_editor_binary,
    is_scene_file, is_workspace_manifest_text, is_zeroengine_binary, runtime_binary_mode, sanitize_file_stem,
    scene_file_is_included, workspace_runtime_binary_path, zeroengine_binary_path, AssetCopy, BuildEnvironment,
    BuildOptions, BuildTarget, HostSystem, RuntimeBinaryMode,
};
use zeroengine::scene_doc::{
    ensure_primary_runtime_camera, entity_has_primary_camera, entity_is_editor_only, filter_editor_only_entities,
    scene_has_primary_runtime_camera, SceneComponentDoc, SceneDoc, SceneEntityDoc,
};

fn component(component_type: &str, primary: Option<bool>) -> SceneComponentDoc {
    SceneComponentDoc { component_type: Some(component_type.to_string()), primary }
}

fn entity(components: Vec<SceneComponentDoc>) -> SceneEntityDoc {
    SceneEntityDoc { id: None, components: Some(components) }
}

fn entity_with_id(index: u64, components: Vec<SceneComponentDoc>) -> SceneEntityDoc {
    SceneEntityDoc { id: Some(SavedEntityId { index, generation: 0 }), components: Some(components) }
}

#[test]
fn scene_file_inclusion_uses_project_scene_names() {
    let included_scenes = vec!["main".to_string(), "Credits".to_string()];

    assert!(scene_file_is_included("assets/scenes/main.zescene.json", &included_scenes));
    assert!(scene_file_is_included("assets/scenes/Credits.zescene.json", &included_scenes));
    assert!(!scene_file_is_included("assets/scenes/Menu.zescene.json", &included_scenes));
}

#[test]
fn filters_editor_only_entities_from_scene_value() {
    let mut scene = SceneDoc {
        entities: Some(vec![
            entity_with_id(0, vec![component("ze.editor.only", None), component("ze.transform", None)]),
            entity_with_id(1, vec![component("ze.transform", None)]),
        ]),
    };

    assert!(filter_editor_only_entities(&mut scene).is_ok());

    assert!(scene.entities.is_some());
    let Some(entities) = scene.entities.as_ref() else {
        return;
    };

    assert_eq!(entities.len(), 1);
    assert_eq!(entities[0].id, Some(SavedEntityId { index: 1, generation: 0 }));
}

#[test]
fn filtered_scene_promotes_remaining_camera_when_editor_camera_was_primary() {
    let mut scene = SceneDoc {
        entities: Some(vec![
            entity(vec![component("ze.editor.only", None), component("ze.renderer.camera", Some(true))]),
            entity(vec![component("ze.renderer.camera", Some(false))]),
        ]),
    };

    filter_editor_only_entities(&mut scene).expect("editor-only filtering should succeed");
    ensure_primary_runtime_camera(&mut scene).expect("runtime camera activation should succeed");

    let entities = scene.entities.as_ref().expect("entities should remain an array");
    assert_eq!(entities.len(), 1);
    assert!(entity_has_primary_camera(&entities[0]));
}

#[test]
fn filtered_scene_preserves_existing_runtime_primary_camera() {
    let mut scene = SceneDoc {
        entities: Some(vec![
            entity(vec![component("ze.renderer.camera", Some(true))]),
            entity(vec![component("ze.renderer.camera", Some(false))]),
        ]),
    };

    ensure_primary_runtime_camera(&mut scene).expect("runtime camera activation should succeed");

    let entities = scene.entities.as_ref().expect("entities should remain an array");
    assert!(entity_has_primary_camera(&entities[0]));
    assert!(!entity_has_primary_camera(&entities[1]));
}

#[test]
fn primary_camera_validation_accepts_promotable_runtime_camera() {
    let mut scene = SceneDoc {
        entities: Some(vec![
            entity(vec![component("ze.editor.only", None), component("ze.renderer.camera", Some(true))]),
            entity(vec![component("ze.renderer.camera", Some(false))]),
        ]),
    };

    let has_primary_camera =
        scene_has_primary_runtime_camera(&mut scene).expect("primary camera validation should succeed");

    assert!(has_primary_camera);
}

#[test]
fn primary_camera_validation_ignores_editor_only_camera_without_runtime_camera() {
    let mut scene = SceneDoc {
        entities: Some(vec![entity(vec![component("ze.editor.only", None), component("ze.renderer.camera", Some(true))])]),
    };

    let has_primary_camera =
        scene_has_primary_runtime_camera(&mut scene).expect("primary camera validation should succeed");

    assert!(!has_primary_camera);
}

#[test]
fn primary_camera_validation_detects_runtime_primary_camera() {
    let mut scene = SceneDoc { entities: Some(vec![entity(vec![component("ze.renderer.camera", Some(true))])]) };

    let has_primary_camera =
        scene_has_primary_runtime_camera(&mut scene).expect("primary camera validation should succeed");

    assert!(has_primary_camera);
}

#[test]
fn primary_camera_validation_detects_camera_on_mixed_component_entity() {
    let mut scene = SceneDoc {
        entities: Some(vec![entity(vec![
            component("ze.name", None),
            component("ze.physics_2d.rigidbody", None),
            component("ze.physics_2d.collider", None),
            component("ze.scripting.script", None),
            component("ze.renderer.camera", Some(true)),
            component("ze.transform", None),
        ])]),
    };

    let has_primary_camera = scene_has_primary_runtime_camera(&mut scene)
        .expect("primary camera validation should accept mixed entities");

    assert!(has_primary_camera);
}

#[test]
fn scene_without_entities_array_is_rejected() {
    let mut scene = SceneDoc { entities: None };
    let error = filter_editor_only_entities(&mut scene).unwrap_err();
    assert_eq!(error, "scene file is missing an entities array");
    assert!(ensure_primary_runtime_camera(&mut scene).is_err());
    assert!(scene_has_primary_runtime_camera(&mut scene).is_err());
}

#[test]
fn promotion_flags_first_camera_of_first_camera_entity() {
    let mut scene = SceneDoc {
        entities: Some(vec![
            entity(vec![component("ze.transform", None)]),
            entity(vec![component("ze.renderer.camera", None), component("ze.renderer.camera", Some(false))]),
            entity(vec![component("ze.renderer.camera", Some(false))]),
        ]),
    };
    ensure_primary_runtime_camera(&mut scene).unwrap();
    let entities = scene.entities.as_ref().unwrap();
    let second = entities[1].components.as_ref().unwrap();
    assert_eq!(second[0].primary, Some(true));
    assert_eq!(second[1].primary, Some(false));
    assert!(!entity_has_primary_camera(&entities[2]));
    assert!(!entity_is_editor_only(&entities[0]));
}

#[test]
fn scene_without_any_camera_has_no_primary_camera() {
    let mut scene = SceneDoc { entities: Some(vec![entity(vec![component("ze.transform", None)])]) };
    assert_eq!(scene_has_primary_runtime_camera(&mut scene), Ok(false));
}

#[test]
fn build_targets_name_their_files() {
    assert_eq!(BuildTarget::host(HostSystem::Windows), BuildTarget::Windows);
    assert_eq!(BuildTarget::host(HostSystem::Linux), BuildTarget::Linux);
    assert_eq!(BuildTarget::host(HostSystem::Other), BuildTarget::Linux);
    assert_eq!(BuildTarget::Linux.target_triple(HostSystem::Linux), "x86_64-unknown-linux-gnu");
    assert_eq!(BuildTarget::Windows.target_triple(HostSystem::Linux), "x86_64-pc-windows-gnu");
    assert_eq!(BuildTarget::Windows.target_triple(HostSystem::Windows), "x86_64-pc-windows-msvc");
    assert_eq!(BuildTarget::Linux.binary_name(), "ZeroEngine");
    assert_eq!(BuildTarget::Windows.binary_name(), "ZeroEngine.exe");
    assert_eq!(BuildTarget::Linux.dotnet_rid(), "linux-x64");
    assert_eq!(BuildTarget::Windows.dotnet_rid(), "win-x64");
}

fn dev_env() -> BuildEnvironment {
    BuildEnvironment {
        mode: RuntimeBinaryMode::Dev { workspace_root: "/work".to_string() },
        system: HostSystem::Linux,
        profile: "debug".to_string(),
    }
}

#[test]
fn runtime_binary_paths_follow_the_mode() {
    assert_eq!(
        workspace_runtime_binary_path("/work", BuildTarget::Linux, HostSystem::Linux, "release"),
        "/work/target/x86_64-unknown-linux-gnu/release/ZeroEngine"
    );
    assert_eq!(zeroengine_binary_path(BuildTarget::Windows, &dev_env()), "/work/target/x86_64-pc-windows-gnu/debug/ZeroEngine.exe");
    let release = BuildEnvironment {
        mode: RuntimeBinaryMode::Release { executable_dir: "/opt/zero".to_string() },
        system: HostSystem::Windows,
        profile: "release".to_string(),
    };
    assert_eq!(zeroengine_binary_path(BuildTarget::Windows, &release), "/opt/zero/ZeroEngine.exe");
}

#[test]
fn build_options_builders_set_their_fields() {
    let env = dev_env();
    let options = BuildOptions::release("/out".to_string(), "/NOTICE".to_string(), &env);
    assert_eq!(options.configuration, "Release");
    assert_eq!(options.target, BuildTarget::Linux);
    assert_eq!(options.zeroengine_binary, "/work/target/x86_64-unknown-linux-gnu/debug/ZeroEngine");
    assert!(options.api_source_dir.is_none());
    let options = options.with_api_source_dir("/api".to_string()).with_target(BuildTarget::Windows, &env);
    assert_eq!(options.api_source_dir.as_deref(), Some("/api"));
    assert_eq!(options.target, BuildTarget::Windows);
    assert_eq!(options.zeroengine_binary, "/work/target/x86_64-pc-windows-gnu/debug/ZeroEngine.exe");
    let options = options.with_zeroengine_binary("/bin/rt".to_string());
    assert_eq!(options.zeroengine_binary, "/bin/rt");
    let debug = BuildOptions::debug("/out".to_string(), "/NOTICE".to_string(), &env);
    assert_eq!(debug.configuration, "Debug");
}

#[test]
fn runtime_binary_mode_follows_configuration() {
    assert!(matches!(
        runtime_binary_mode(Some("dev"), "/x".to_string(), Some("/w".to_string())),
        Some(RuntimeBinaryMode::Dev { .. })
    ));
    assert!(runtime_binary_mode(Some("dev"), "/x".to_string(), None).is_none());
    assert!(matches!(
        runtime_binary_mode(Some("packaged"), "/x".to_string(), Some("/w".to_string())),
        Some(RuntimeBinaryMode::Release { .. })
    ));
    assert!(matches!(runtime_binary_mode(None, "/x".to_string(), None), Some(RuntimeBinaryMode::Release { .. })));
    assert!(matches!(runtime_binary_mode(None, "/x".to_string(), Some("/w".to_string())), Some(RuntimeBinaryMode::Dev { .. })));
    assert_eq!(current_build_profile(None), "debug");
    assert_eq!(current_build_profile(Some("release")), "release");
}

#[test]
fn executable_names_are_sanitized() {
    assert_eq!(sanitize_file_stem("My Game!"), "My_Game");
    assert_eq!(sanitize_file_stem("__Zero-Game.v2__"), "Zero-Game.v2");
    assert_eq!(executable_file_name("My Game", "exe"), "My_Game.exe");
    assert_eq!(executable_file_name("???", ""), "ZeroEngineGame");
    assert_eq!(executable_file_name("Ünïcode", ""), "n_code");
}

#[test]
fn binaries_and_scene_files_are_recognised() {
    assert!(is_zeroengine_binary("/a/b/ZeroEngine.exe", BuildTarget::Windows));
    assert!(!is_zeroengine_binary("/a/b/ZeroEngine.exe", BuildTarget::Linux));
    assert!(is_editor_binary("target/debug/ZeroEditor"));
    assert!(!is_editor_binary("target/debug/ZeroEngine"));
    assert!(is_scene_file("assets/scenes/main.zescene.json"));
    assert!(!is_scene_file("assets/scenes/main.json"));
    let included = vec!["main".to_string()];
    assert_eq!(asset_copy_action("assets/scenes/main.zescene.json", &included), AssetCopy::CopyFilteredScene);
    assert_eq!(asset_copy_action("assets/scenes/Menu.zescene.json", &included), AssetCopy::Skip);
    assert_eq!(asset_copy_action("assets/textures/a.png", &included), AssetCopy::Copy);
}

#[test]
fn workspace_manifests_are_detected() {
    assert!(is_workspace_manifest_text("[package]\nname = \"x\"\n\n  [workspace]  \r\nmembers = []\n"));
    assert!(!is_workspace_manifest_text("[package]\nname = \"workspace\"\n"));
}

#[test]
fn dist_entries_are_filtered() {
    assert!(dist_entry_skipped("Sandbox.dll", "Sandbox.dll", false));
    assert!(dist_entry_skipped("Sandbox.runtimeconfig.json", "Sandbox.dll", false));
    assert!(dist_entry_skipped("Foo.deps.json", "Sandbox.dll", false));
    assert!(dist_entry_skipped("System.Runtime.pdb", "Sandbox.dll", false));
    assert!(dist_entry_skipped("System.Runtime.xml", "Sandbox.dll", false));
    assert!(dist_entry_skipped("de", "Sandbox.dll", true));
    assert!(dist_entry_skipped("zh-CN", "Sandbox.dll", true));
    assert!(!dist_entry_skipped("zh-CN", "Sandbox.dll", false));
    assert!(!dist_entry_skipped("System.Runtime.dll", "Sandbox.dll", false));
    assert!(!dist_entry_skipped("runtimes", "Sandbox.dll", true));
}

#[test]
fn dotnet_build_runs_on_the_project_file_in_the_configuration() {
    assert_eq!(
        zeroengine::packaging::dotnet_build_args("/p/assets/Sandbox.csproj", "Release"),
        vec!["build", "/p/assets/Sandbox.csproj", "--configuration", "Release", "--nologo"]
    );
}

#[test]
fn self_contained_publish_builds_below_its_output_directory() {
    assert_eq!(
        zeroengine::packaging::dotnet_publish_args("/p/Sandbox.csproj", "Release", "linux-x64", "/tmp/publish", HostSystem::Linux),
        vec![
            "publish",
            "/p/Sandbox.csproj",
            "--configuration",
            "Release",
            "--self-contained",
            "true",
            "-r",
            "linux-x64",
            "--nologo",
            "-o",
            "/tmp/publish",
            "-p:OutputPath=/tmp/publish/build/",
            "-p:EnableDynamicLoading=true",
        ]
    );
    let windows = zeroengine::packaging::dotnet_publish_args("p.csproj", "Debug", "win-x64", "out", HostSystem::Windows);
    assert_eq!(windows[11], "-p:OutputPath=out/build\\");
}
