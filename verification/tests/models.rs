use blueprint::blueprint::image_cache::{CacheError, POOL_SIZE};
use blueprint::db::{page_window, DateTime, PAGE_SIZE};
use blueprint::models::runs::CompositorRunStatus;
use blueprint::models::templates::{
    auto_name, begins_with_dollar, mark, AliasEntry, BlendMode, Degrees, Layer, Opacity, Scale,
    Template, Transform, UNIT,
};
use blueprint::models::users::{NewUser, UpdateUser, User};
use blueprint::routes::util::created_location;
use blueprint::routes::v1::assets::asset_file_name;
use blueprint::routes::v1::runs::{archive_name, result_file_name};
use blueprint::routes::v1::template::{BlueprintRequest, TemplateRequest};
use blueprint::routes::v1::{Paginated, UserSession};

#[test]
fn defaults_leave_a_layer_as_it_is() {
    assert_eq!(Opacity::default(), Opacity(UNIT));
    assert_eq!(Scale::default(), Scale(65536));
    assert_eq!(Degrees::default(), Degrees(0));
    assert_eq!(BlendMode::default(), BlendMode::Normal);
    let transform = Transform::default();
    assert_eq!(transform.offset, (0, 0));
    assert_eq!(transform.scale, Scale(UNIT));
    assert_eq!(transform.rotate, Degrees(0));
    let layer = Layer::new("$bg");
    assert_eq!(layer.reference, "$bg");
    assert_eq!(layer.opacity, Opacity(UNIT));
    assert_eq!(layer.blend_mode, BlendMode::Normal);
}

#[test]
fn normalizing_gives_every_layer_an_alias() {
    let mut template = Template {
        aliases: vec![
            AliasEntry { name: "$fg".to_string(), references: vec!["pack:*.png".to_string()] },
            AliasEntry { name: "$0".to_string(), references: vec!["zero".to_string()] },
        ],
        layers: vec![
            Layer::new("sky.png"),
            Layer::new("$fg"),
            Layer::new("pack:ground.png"),
            Layer::new("$0"),
        ],
        canvas_size: (10, 20),
    };
    template.normalize_use_refs();
    let names: Vec<&str> = template.aliases.iter().map(|entry| entry.name.as_str()).collect();
    assert_eq!(names, vec!["$_fg", "$_0", "$0", "$1"]);
    assert_eq!(template.aliases[0].references, vec!["pack:*.png".to_string()]);
    assert_eq!(template.aliases[1].references, vec!["zero".to_string()]);
    assert_eq!(template.aliases[2].references, vec!["sky.png".to_string()]);
    assert_eq!(template.aliases[3].references, vec!["pack:ground.png".to_string()]);
    let references: Vec<&str> =
        template.layers.iter().map(|layer| layer.reference.as_str()).collect();
    assert_eq!(references, vec!["$0", "$_fg", "$1", "$_0"]);
    assert_eq!(template.canvas_size, (10, 20));
}

#[test]
fn marking_puts_an_underscore_after_the_first_character() {
    assert_eq!(mark("$fg"), "$_fg");
    assert_eq!(mark("$"), "$_");
    assert_eq!(mark(""), "_");
    assert_eq!(mark("éa"), "é_a");
    assert!(begins_with_dollar("$x"));
    assert!(!begins_with_dollar("x$"));
    assert!(!begins_with_dollar(""));
    assert_eq!(auto_name(0), "$0");
    assert_eq!(auto_name(12), "$12");
    assert_eq!(auto_name(1050), "$1050");
}

#[test]
fn pages_count_from_one() {
    assert_eq!(PAGE_SIZE, 25);
    assert_eq!(page_window(1), Some((0, 25)));
    assert_eq!(page_window(2), Some((25, 25)));
    assert_eq!(page_window(5), Some((100, 25)));
    assert_eq!(page_window(0), None);
    assert_eq!(page_window(171_798_692), Some((4_294_967_275, 25)));
    assert_eq!(page_window(171_798_693), None);
    assert!(Paginated { page: None }.validate().is_ok());
    assert!(Paginated { page: Some(1) }.validate().is_ok());
    assert_eq!(Paginated { page: Some(0) }.validate(), Err("must be an integer >= 1"));
    assert_eq!(Paginated { page: None }.page_or_first(), 1);
    assert_eq!(Paginated { page: Some(9) }.page_or_first(), 9);
}

#[test]
fn sessions_come_from_the_cookie() {
    assert_eq!(UserSession::from_cookie(Some("token")).unwrap().0, "token");
    assert_eq!(
        UserSession::from_cookie(None).unwrap_err(),
        "no session token provided in request"
    );
}

#[test]
fn records_and_models_convert() {
    let user = User {
        id: "u1".to_string(),
        username: "ann".to_string(),
        display_name: "Ann".to_string(),
        avatar_url: Some("http://a".to_string()),
        created: DateTime(5),
    };
    let record = blueprint::db::User::from(user.clone());
    assert_eq!(record.partition_key, "u1");
    assert_eq!(record.row_key, "u1");
    let back: User = record.into();
    assert_eq!(back.id, "u1");
    assert_eq!(back.display_name, "Ann");
    assert_eq!(back.avatar_url.as_deref(), Some("http://a"));
    assert_eq!(back.created, DateTime(5));
    let fresh =
        blueprint::db::User::from_new(NewUser { username: "bob".to_string() }, "id9", DateTime(7));
    assert_eq!(fresh.row_key, "id9");
    assert_eq!(fresh.display_name, "bob");
    assert!(fresh.avatar_url.is_none());
    let mut changed = user;
    UpdateUser { username: None, display_name: Some("A.".to_string()) }.apply(&mut changed);
    assert_eq!(changed.username, "ann");
    assert_eq!(changed.display_name, "A.");
    let run = blueprint::models::runs::CompositorRun {
        id: "r".to_string(),
        created: DateTime(1),
        status: CompositorRunStatus::Succeeded,
        progress: 100,
        author: "u1".to_string(),
    };
    let stored = blueprint::db::CompositorRun::from_model(run);
    assert_eq!(stored.status, 2);
    assert_eq!(stored.progress, 100);
    assert_eq!(stored.id, "");
    let back = stored.clone().into_model().unwrap();
    assert_eq!(back.status, CompositorRunStatus::Succeeded);
    assert_eq!(back.progress, 100);
    let mut odd = stored.clone();
    odd.status = 9;
    assert!(odd.into_model().is_none());
    let mut beyond = stored;
    beyond.progress = 101;
    assert!(beyond.into_model().is_none());
    let fresh = blueprint::models::runs::CompositorRun::pending("r2", DateTime(3), "u2");
    assert_eq!(fresh.status, CompositorRunStatus::Pending);
    assert_eq!(fresh.progress, 0);
    assert_eq!(fresh.id, "r2");
    assert_eq!(fresh.author, "u2");
}

#[test]
fn pack_records_keep_every_field() {
    let pack = blueprint::models::AssetPack {
        slug: "trees".to_string(),
        name: "Trees".to_string(),
        description: "Leafy".to_string(),
        tags: vec!["green".to_string()],
        last_modified: DateTime(11),
        version: "2".to_string(),
        author: "u1".to_string(),
        manifest: vec!["oak.png".to_string()],
    };
    let record = blueprint::db::AssetPack::from(pack);
    assert_eq!(record.slug, "trees");
    assert_eq!(record.manifest, vec!["oak.png".to_string()]);
    let back = blueprint::models::AssetPack::from(record);
    assert_eq!(back.name, "Trees");
    assert_eq!(back.description, "Leafy");
    assert_eq!(back.tags, vec!["green".to_string()]);
    assert_eq!(back.last_modified, DateTime(11));
    assert_eq!(back.version, "2");
    assert_eq!(back.author, "u1");
    let template = Template::from(TemplateRequest {
        aliases: vec![AliasEntry { name: "$a".to_string(), references: Vec::new() }],
        canvas_size: (5, 6),
        layers: vec![Layer::new("$a")],
    });
    assert_eq!(template.canvas_size, (5, 6));
    assert_eq!(template.aliases[0].name, "$a");
    assert_eq!(template.layers[0].reference, "$a");
}

#[test]
fn requests_become_templates() {
    let request = BlueprintRequest {
        templates: vec![
            TemplateRequest { aliases: Vec::new(), canvas_size: (1, 2), layers: vec![Layer::new("a")] },
            TemplateRequest { aliases: Vec::new(), canvas_size: (3, 4), layers: Vec::new() },
        ],
    };
    let blueprint = request.into_blueprint("me".to_string());
    assert_eq!(blueprint.author, "me");
    assert_eq!(blueprint.templates.len(), 2);
    assert_eq!(blueprint.templates[0].canvas_size, (1, 2));
    assert_eq!(blueprint.templates[0].layers[0].reference, "a");
    assert_eq!(blueprint.templates[1].canvas_size, (3, 4));
}

#[test]
fn names_of_answers() {
    assert_eq!(created_location("http://h/v1/users", "ann"), "http://h/v1/users/ann");
    assert_eq!(result_file_name("run/a/b.png").as_deref(), Some("a/b.png"));
    assert_eq!(result_file_name("run/").as_deref(), Some(""));
    assert_eq!(result_file_name("run"), None);
    assert_eq!(archive_name("r1"), "r1.zip");
    let tags = vec![
        ("kind".to_string(), "tree".to_string()),
        ("file_name".to_string(), "oak.png".to_string()),
        ("file_name".to_string(), "late.png".to_string()),
    ];
    assert_eq!(asset_file_name(&tags, "id1"), "oak.png");
    assert_eq!(asset_file_name(&Vec::new(), "id1"), "id1");
    assert_eq!(blueprint::db::assets::pack_container_name("trees"), "pack-trees");
}

#[test]
fn cache_errors_keep_their_words() {
    assert_eq!(CacheError::new("gone").message(), "gone");
    assert_eq!(POOL_SIZE, 20);
}
