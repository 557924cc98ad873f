use blueprint::blueprint::compositor::{can_prepare, encode_instance, prepare_layer, Rotation};
use blueprint::blueprint::image_cache::load_image;
use blueprint::blueprint::locator::Locator;
use blueprint::blueprint::orchestrator::{expand_aliases, needed_packs, Run};
use blueprint::blueprint::raster::Raster;
use blueprint::blueprint::resolver::{Catalog, CatalogPack, PackListing};
use blueprint::models::runs::CompositorRunStatus;
use blueprint::models::templates::{AliasEntry, Layer, Template};

fn shade_of(locator: &Locator) -> u8 {
    locator.path.bytes().fold(0u8, |sum, byte| sum.wrapping_add(byte))
}

fn asset(locator: &Locator, width: u32, height: u32) -> Raster {
    let shade = shade_of(locator);
    let mut bytes = Vec::new();
    for _ in 0..(width * height) {
        bytes.extend_from_slice(&[shade, shade / 2, 255 - shade, 255]);
    }
    Raster::from_raw(width, height, bytes).unwrap()
}

#[test]
fn template_renders_every_combination() {
    let mut template = Template {
        aliases: vec![AliasEntry {
            name: "$fg".to_string(),
            references: vec!["trees:*.png".to_string()],
        }],
        layers: vec![Layer::new("sky.png"), Layer::new("$fg")],
        canvas_size: (8, 6),
    };
    template.normalize_use_refs();
    assert_eq!(needed_packs(&template), vec!["trees".to_string()]);
    let catalog = Catalog {
        packs: vec![CatalogPack {
            pack: "trees".to_string(),
            listing: PackListing::Listed(vec![
                "oak.png".to_string(),
                "notes.txt".to_string(),
                "elm.png".to_string(),
                "ash.png".to_string(),
            ]),
        }],
    };
    let aliases = expand_aliases(&template, &catalog).unwrap();
    let names: Vec<&str> = aliases.iter().map(|alias| alias.name.as_str()).collect();
    assert_eq!(names, vec!["$_fg", "$0"]);

    let mut run = Run::start("run1", aliases, "$_fg");
    let mut outputs: Vec<(String, Vec<u8>)> = Vec::new();
    let mut reported = Vec::new();
    while let Some(binding) = run.current() {
        let locators = template.layer_locators(binding).unwrap();
        assert_eq!(locators.len(), 2);
        let mut prepared = Vec::new();
        for (layer, locator) in template.layers.iter().zip(locators.iter()) {
            let size = if locator.pack.is_some() { (4, 2) } else { (8, 6) };
            let image = asset(locator, size.0, size.1);
            assert!(can_prepare(&image, &layer.transform));
            match prepare_layer(&image, &layer.transform) {
                Rotation::Upright(square) => prepared.push(square),
                Rotation::Turn { .. } => panic!("no layer is turned"),
            }
        }
        assert!(template.can_apply(&prepared));
        let canvas = template.apply(&prepared);
        let tree = shade_of(&locators[1]);
        let sky = shade_of(&locators[0]);
        assert_eq!(canvas.get_pixel(0, 0), Some([sky, sky / 2, 255 - sky, 255]));
        assert_eq!(canvas.get_pixel(4, 3), Some([tree, tree / 2, 255 - tree, 255]));
        assert_eq!(canvas.get_pixel(2, 2), Some([tree, tree / 2, 255 - tree, 255]));
        assert_eq!(canvas.get_pixel(1, 2), Some([sky, sky / 2, 255 - sky, 255]));
        assert_eq!(canvas.get_pixel(6, 3), Some([sky, sky / 2, 255 - sky, 255]));
        let file = encode_instance(&canvas).unwrap();
        assert_eq!(load_image(&file).unwrap().as_raw(), canvas.as_raw());
        outputs.push((run.output_name().unwrap(), file));
        reported.push(run.instance_done());
    }
    let stored: Vec<&str> = outputs.iter().map(|(name, _)| name.as_str()).collect();
    assert_eq!(stored, vec!["run1/oak.png", "run1/elm.png", "run1/ash.png"]);
    assert_eq!(reported, vec![33, 67, 100]);
    assert_eq!(run.status(), CompositorRunStatus::Succeeded);
    assert_ne!(outputs[0].1, outputs[1].1);
}
