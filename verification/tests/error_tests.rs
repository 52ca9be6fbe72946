use disk_helper::error::{err, err_at, ApiResponse, AppError, ErrorCode};

#[test]
fn error_construction() {
    let e = AppError::new(ErrorCode::BadArgument, "invalid path");
    assert_eq!(e.code, ErrorCode::BadArgument);
    assert_eq!(e.message, "invalid path");
    assert!(e.target.is_none());
    let e = e.with_target("scan");
    assert_eq!(e.target.as_deref(), Some("scan"));
    assert_eq!(e.message, "invalid path");
    assert_eq!(e.display(), "invalid path");
    let e2 = err(ErrorCode::NotFound, "x");
    assert_eq!(e2.code, ErrorCode::NotFound);
    let e3 = err_at(ErrorCode::InternalError, "boom", "rules");
    assert_eq!(e3.target.as_deref(), Some("rules"));
}

#[test]
fn response_envelope_holds_one_side() {
    let ok: ApiResponse<u32> = ApiResponse::ok(100);
    assert_eq!(ok.data, Some(100));
    assert!(ok.error.is_none());
    let bad: ApiResponse<u32> = ApiResponse::err(err(ErrorCode::BadArgument, "invalid path").with_target("scan"));
    assert!(bad.data.is_none());
    assert_eq!(bad.error.expect("error").code, ErrorCode::BadArgument);
}
