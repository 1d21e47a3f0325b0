use plasma_stream::config::Config;
use plasma_stream::products::get_launchable_products;
use plasma_stream::products::BuildProduct;
use plasma_stream::products::ProductType;
use plasma_stream::products::classify_product;
use plasma_stream::products::extract_build_dir;
use plasma_stream::projects::default_limit;
use plasma_stream::projects::is_project_path;
use plasma_stream::projects::RecentProjectsQuery;
use plasma_stream::projects::ValidateProjectRequest;
use plasma_stream::projects::XcodeSchemesRequest;

#[test]
fn test_default_config() {
    let config = Config::default();
    assert_eq!(config.port, 4000);
    assert!(!config.debug);
}

#[test]
fn test_get_launchable_products() {
    let products = vec![
        BuildProduct {
            name: "MyApp.app".to_string(),
            path: "/path/to/MyApp.app".to_string(),
            product_type: ProductType::Application,
            is_launchable: true,
        },
        BuildProduct {
            name: "MyFramework.framework".to_string(),
            path: "/path/to/MyFramework.framework".to_string(),
            product_type: ProductType::Framework,
            is_launchable: false,
        },
        BuildProduct {
            name: "MyTests.xctest".to_string(),
            path: "/path/to/MyTests.xctest".to_string(),
            product_type: ProductType::UnitTest,
            is_launchable: false,
        },
    ];

    let launchable = get_launchable_products(&products);
    assert_eq!(launchable.len(), 1);
    assert_eq!(launchable[0].name, "MyApp.app");
    assert_eq!(launchable[0].product_type, ProductType::Application);
}

#[test]
fn test_get_launchable_products_empty() {
    let products = vec![BuildProduct {
        name: "MyFramework.framework".to_string(),
        path: "/path/to/MyFramework.framework".to_string(),
        product_type: ProductType::Framework,
        is_launchable: false,
    }];

    let launchable = get_launchable_products(&products);
    assert_eq!(launchable.len(), 0);
}

#[test]
fn test_is_project_path() {
    assert!(is_project_path("/path/to/MyApp.xcworkspace"));
    assert!(is_project_path("/path/to/MyApp.xcodeproj"));
    assert!(is_project_path("/path/to/build.gradle"));
    assert!(is_project_path("/path/to/build.gradle.kts"));
    assert!(!is_project_path("/path/to/some/directory"));
    assert!(!is_project_path("/path/to/file.txt"));
}

#[test]
fn extract_build_dir_finds_the_configured_directory() {
    let output = "Build settings for action build and target Demo:\n    SDKROOT = iphonesimulator\n    CONFIGURATION_BUILD_DIR = /tmp/DerivedData/Build/Products/Debug-iphonesimulator\n    OTHER = value\n";
    let dir = extract_build_dir(output);
    assert_eq!(
        dir.as_deref(),
        Some("/tmp/DerivedData/Build/Products/Debug-iphonesimulator")
    );
}

#[test]
fn extract_build_dir_without_the_line_is_none() {
    let output = "Build settings:\n    SDKROOT = iphonesimulator\n";
    assert!(extract_build_dir(output).is_none());
}

#[test]
fn build_artifacts_classify_by_their_name() {
    assert_eq!(classify_product("MyApp.app"), Some((ProductType::Application, true)));
    assert_eq!(classify_product("Kit.framework"), Some((ProductType::Framework, false)));
    assert_eq!(classify_product("libcore.a"), Some((ProductType::StaticLibrary, false)));
    assert_eq!(classify_product("libcore.dylib"), Some((ProductType::DynamicLibrary, false)));
    assert_eq!(classify_product("Assets.bundle"), Some((ProductType::Bundle, false)));
    assert_eq!(classify_product("MyTests.xctest"), Some((ProductType::UnitTest, false)));
    assert_eq!(classify_product("MyUITests.xctest"), Some((ProductType::UITest, false)));
    assert_eq!(classify_product("Widget.appex"), Some((ProductType::AppExtension, false)));
    assert_eq!(classify_product("notes.txt"), None);
}

#[test]
fn default_recent_projects_limit_is_ten() {
    assert_eq!(default_limit(), 10);
    let q = RecentProjectsQuery { query: None, limit: default_limit() };
    assert_eq!(q.limit, 10);
}

#[test]
fn request_types_carry_their_paths() {
    let v = ValidateProjectRequest { path: "/tmp/app".to_string() };
    assert_eq!(v.path, "/tmp/app");
    let x = XcodeSchemesRequest { path: "/tmp/app".to_string() };
    assert_eq!(x.path, "/tmp/app");
}
