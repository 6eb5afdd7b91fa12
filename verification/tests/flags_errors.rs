use likemod::errors::Error;
use likemod::errors::ErrorContext;
use likemod::load;
use likemod::unload;
use likemod::ModLoader;
use likemod::ModUnloader;

#[test]
fn load_flags_match_table() {
    assert_eq!(ModLoader::new().flags(), 0);
    assert_eq!(ModLoader::new().ignore_modversion(true).flags(), 1);
    assert_eq!(ModLoader::new().ignore_vermagic(true).flags(), 2);
    assert_eq!(
        ModLoader::new().ignore_modversion(true).ignore_vermagic(true).flags(),
        3
    );
    assert_eq!(
        ModLoader::new().ignore_modversion(true).ignore_modversion(false).flags(),
        0
    );
}

#[test]
fn unload_flags_match_table() {
    let plain = ModUnloader::new();
    let forced = ModUnloader::new().forced(true);
    assert_eq!(plain.sync_flags(false), 0);
    assert_eq!(forced.sync_flags(false), libc::O_TRUNC);
    assert_eq!(forced.sync_flags(true), libc::O_TRUNC | libc::O_NONBLOCK);
    assert_eq!(plain.sync_flags(true), libc::O_NONBLOCK);
    assert_eq!(unload::DELETE_MODULE_FORCE, libc::O_TRUNC);
    assert_eq!(unload::DELETE_MODULE_NONBLOCK, libc::O_NONBLOCK);
    assert_eq!(unload::EWOULDBLOCK_CODE, libc::EWOULDBLOCK);
}

#[test]
fn load_result_maps_raw_returns() {
    assert_eq!(load::load_result(0, 0), Ok(()));
    assert_eq!(
        load::load_result(-1, libc::ENOEXEC),
        Err(Error { code: libc::ENOEXEC, context: ErrorContext::LoadModule })
    );
}

#[test]
fn unload_result_maps_raw_returns() {
    assert_eq!(unload::unload_result(0, 0), Ok(()));
    assert_eq!(
        unload::unload_result(-1, libc::ENOENT),
        Err(Error { code: libc::ENOENT, context: ErrorContext::UnloadModule })
    );
}

#[test]
fn error_context_messages() {
    let e = Error { code: 1, context: ErrorContext::LoadModule };
    assert_eq!(e.context_message(), "finit_module error");
    let e = Error { code: 1, context: ErrorContext::UnloadModule };
    assert_eq!(e.context_message(), "delete_module error");
    let e = Error { code: 0, context: ErrorContext::RateLimitTimer };
    assert_eq!(e.context_message(), "failed rate-limiting interval");
}

#[test]
fn loader_builds_param_string() {
    let mut params = likemod::ModParams::new();
    params.insert("bus_delay".to_owned(), likemod::ModParamValue::Int(5));
    let loader = ModLoader::new().set_parameters(params);
    assert_eq!(loader.param_string(), "bus_delay=5");
    assert_eq!(loader.flags(), 0);
}
