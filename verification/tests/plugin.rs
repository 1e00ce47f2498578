use swept_collision::json_plugin::JsonAssetPlugin;

struct LevelMarker;

#[test]
fn plugin_keeps_the_extension_list() {
    let plugin: JsonAssetPlugin<LevelMarker> = JsonAssetPlugin::new(&["json"]);
    assert_eq!(plugin.extensions().as_slice(), &["json"]);

    let several: JsonAssetPlugin<LevelMarker> = JsonAssetPlugin::new(&["json", "lvl"]);
    assert_eq!(several.extensions().as_slice(), &["json", "lvl"]);

    let none: JsonAssetPlugin<LevelMarker> = JsonAssetPlugin::new(&[]);
    assert!(none.extensions().is_empty());
}
