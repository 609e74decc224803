use microcourse::storage::{access_failed, create_failed, endpoint_shown, unreachable_store};
use microcourse::storage::{
    auth_failed, bucket_step, create_refused, force_path_style, storage_config, BucketProbe,
    BucketStep, StorageEnv,
};

fn empty_env() -> StorageEnv {
    StorageEnv {
        s3_endpoint: None,
        minio_endpoint: None,
        s3_access_key: None,
        minio_access_key: None,
        s3_secret_key: None,
        minio_secret_key: None,
        s3_bucket: None,
        minio_bucket: None,
        s3_region: None,
        s3_force_path_style: None,
    }
}

#[test]
fn storage_defaults() {
    let c = storage_config(empty_env());
    assert_eq!(c.endpoint, "http://localhost:9000");
    assert_eq!(c.access_key, "admin");
    assert_eq!(c.secret_key, "12345678");
    assert_eq!(c.bucket, "videos");
    assert_eq!(c.region, "us-east-1");
    assert!(c.force_path_style);
}

#[test]
fn generic_settings_win_over_minio_ones() {
    let mut env = empty_env();
    env.s3_endpoint = Some("https://oss-cn-hangzhou.aliyuncs.com".to_string());
    env.minio_endpoint = Some("http://minio:9000".to_string());
    env.minio_bucket = Some("legacy".to_string());
    env.s3_region = Some("oss-cn-hangzhou".to_string());
    let c = storage_config(env);
    assert_eq!(c.endpoint, "https://oss-cn-hangzhou.aliyuncs.com");
    assert_eq!(c.bucket, "legacy");
    assert_eq!(c.region, "oss-cn-hangzhou");
}

#[test]
fn path_style_switch() {
    assert!(force_path_style(&None));
    assert!(force_path_style(&Some("true".to_string())));
    assert!(!force_path_style(&Some("false".to_string())));
    assert!(!force_path_style(&Some("FALSE".to_string())));
    assert!(!force_path_style(&Some("0".to_string())));
    assert!(force_path_style(&Some("no".to_string())));
}

#[test]
fn bucket_probe_outcomes() {
    assert!(matches!(bucket_step(&BucketProbe::Found), BucketStep::Ready));
    assert!(matches!(bucket_step(&BucketProbe::Refused(404)), BucketStep::Create));
    assert!(matches!(bucket_step(&BucketProbe::Refused(403)), BucketStep::AuthFailed(403)));
    assert!(matches!(bucket_step(&BucketProbe::Refused(401)), BucketStep::AuthFailed(401)));
    assert!(matches!(bucket_step(&BucketProbe::Refused(500)), BucketStep::Failed(500)));
    assert!(matches!(bucket_step(&BucketProbe::Unreachable), BucketStep::Unreachable));
}

#[test]
fn bucket_error_messages() {
    let m = auth_failed(403, "videos");
    assert!(m.starts_with("认证失败（HTTP 403）：请检查 S3_ACCESS_KEY"));
    assert!(m.contains("bucket 'videos' 的权限"));
    let m = create_refused(401, "videos").unwrap();
    assert_eq!(
        m,
        "创建存储桶被拒绝（HTTP 401）：AccessKey 无创建 bucket 权限。请在 OSS 控制台手动创建 bucket 'videos'，或为 AccessKey 授予 oss:PutBucket 权限。"
    );
    assert!(create_refused(500, "videos").is_none());
}

#[test]
fn bucket_start_up_messages() {
    assert_eq!(endpoint_shown(None, Some("http://m:9000".to_string())), "http://m:9000");
    assert_eq!(endpoint_shown(None, None), "<未设置>");
    assert_eq!(
        access_failed(500, "http://m:9000", "boom"),
        "访问存储桶失败（HTTP 500）：请检查 S3_ENDPOINT（当前：http://m:9000）和网络连通性。原始错误：boom"
    );
    assert_eq!(unreachable_store("dns"), "连接对象存储失败（可能是 S3_ENDPOINT 配置有误、网络不通或 TLS 证书问题）：dns");
    assert_eq!(create_failed(Some(409), "videos", "taken"), "创建存储桶失败（HTTP 409）：taken");
    assert_eq!(create_failed(None, "videos", "io"), "创建存储桶失败：io");
    assert!(create_failed(Some(403), "videos", "x").starts_with("创建存储桶被拒绝（HTTP 403）"));
}
