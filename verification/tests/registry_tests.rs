use framegen::config::Config;
use framegen::config::ConfigError;
use framegen::config::OutputFormat;
use framegen::registry::resolve;
use framegen::registry::same_text;
use framegen::registry::RegistryError;
use framegen::registry::ShaderKind;

#[test]
fn registered_names_resolve() {
    assert_eq!(resolve("cyberspace"), Ok(ShaderKind::Cyberspace));
    assert_eq!(resolve("plasma"), Ok(ShaderKind::Plasma));
    assert_eq!(resolve("gradient"), Ok(ShaderKind::Gradient));
}

#[test]
fn unknown_names_are_not_found() {
    assert_eq!(resolve(""), Err(RegistryError::NotFound));
    assert_eq!(resolve("Plasma"), Err(RegistryError::NotFound));
    assert_eq!(resolve("plasma "), Err(RegistryError::NotFound));
    assert_eq!(resolve("plasm"), Err(RegistryError::NotFound));
    assert_eq!(resolve("mandelbrot"), Err(RegistryError::NotFound));
}

#[test]
fn every_shader_resolves_under_its_own_name() {
    for kind in [ShaderKind::Cyberspace, ShaderKind::Plasma, ShaderKind::Gradient] {
        assert_eq!(resolve(kind.name()), Ok(kind));
    }
    assert_eq!(ShaderKind::Cyberspace.name(), "cyberspace");
    assert_eq!(ShaderKind::Plasma.name(), "plasma");
    assert_eq!(ShaderKind::Gradient.name(), "gradient");
}

#[test]
fn same_text_compares_whole_texts() {
    assert!(same_text("", ""));
    assert!(same_text("gif", "gif"));
    assert!(!same_text("gif", "gi"));
    assert!(!same_text("gif", "gig"));
    assert!(!same_text("gif", "GIF"));
}

#[test]
fn extension_selects_container() {
    assert_eq!(OutputFormat::from_extension("mp4"), Some(OutputFormat::MP4));
    assert_eq!(OutputFormat::from_extension("gif"), Some(OutputFormat::GIF));
    assert_eq!(OutputFormat::from_extension("avi"), None);
    assert_eq!(OutputFormat::from_extension(".mp4"), None);
    assert_eq!(OutputFormat::from_extension("MP4"), None);
    assert_eq!(OutputFormat::from_extension(""), None);
}

#[test]
fn good_values_make_a_configuration() {
    let config = Config::new(720, 480, 30, 60, 8, "gif", "cyberspace").unwrap();
    assert_eq!(
        config,
        Config {
            width: 720,
            height: 480,
            frame_rate: 30,
            frames: 60,
            core_count: 8,
            output_format: OutputFormat::GIF,
            shader: ShaderKind::Cyberspace,
        }
    );
}

#[test]
fn each_fault_gives_its_error() {
    assert_eq!(Config::new(0, 4, 30, 4, 2, "mp4", "plasma"), Err(ConfigError::ZeroWidth));
    assert_eq!(Config::new(4, 0, 30, 4, 2, "mp4", "plasma"), Err(ConfigError::ZeroHeight));
    assert_eq!(Config::new(4, 4, 30, 0, 2, "mp4", "plasma"), Err(ConfigError::ZeroFrames));
    assert_eq!(Config::new(4, 4, 30, 4, 0, "mp4", "plasma"), Err(ConfigError::ZeroWorkers));
    assert_eq!(
        Config::new(usize::MAX, 2, 30, 4, 2, "mp4", "plasma"),
        Err(ConfigError::FrameTooLarge)
    );
    assert_eq!(
        Config::new(usize::MAX / 2, 1, 30, 4, 2, "mp4", "plasma"),
        Err(ConfigError::FrameTooLarge)
    );
    assert_eq!(Config::new(4, 4, 30, 4, 2, "mov", "plasma"), Err(ConfigError::UnsupportedFormat));
    assert_eq!(Config::new(4, 4, 30, 4, 2, "mp4", "milk"), Err(ConfigError::UnknownShader));
}

#[test]
fn the_first_fault_wins() {
    assert_eq!(Config::new(0, 0, 0, 0, 0, "", ""), Err(ConfigError::ZeroWidth));
    assert_eq!(Config::new(1, 0, 0, 0, 0, "", ""), Err(ConfigError::ZeroHeight));
    assert_eq!(Config::new(1, 1, 0, 0, 0, "", ""), Err(ConfigError::ZeroFrames));
    assert_eq!(Config::new(1, 1, 0, 1, 0, "", ""), Err(ConfigError::ZeroWorkers));
    assert_eq!(Config::new(1, 1, 0, 1, 1, "", ""), Err(ConfigError::UnsupportedFormat));
    assert_eq!(Config::new(1, 1, 0, 1, 1, "gif", ""), Err(ConfigError::UnknownShader));
    assert!(Config::new(1, 1, 0, 1, 1, "gif", "gradient").is_ok());
}
