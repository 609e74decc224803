//! Object-store settings and the start-up check of the bucket.
use vstd::prelude::*;
use crate::text::{int_text, int_text_of, lowercase_of, same_text, to_lowercase};

verus! {

/// The object-store settings as the environment gives them: the generic
/// `S3_*` variables and the older `MINIO_*` ones (`None` when unset).
#[derive(Debug)]
pub struct StorageEnv {
    pub s3_endpoint: Option<String>,
    pub minio_endpoint: Option<String>,
    pub s3_access_key: Option<String>,
    pub minio_access_key: Option<String>,
    pub s3_secret_key: Option<String>,
    pub minio_secret_key: Option<String>,
    pub s3_bucket: Option<String>,
    pub minio_bucket: Option<String>,
    pub s3_region: Option<String>,
    pub s3_force_path_style: Option<String>,
}

/// The settings the client is built with.
#[derive(Debug)]
pub struct StorageConfig {
    pub endpoint: String,
    pub access_key: String,
    pub secret_key: String,
    pub bucket: String,
    pub region: String,
    pub force_path_style: bool,
}

/// The first value that is set, else the built-in default.
pub open spec fn setting(first: Option<String>, second: Option<String>, default: Seq<char>) -> Seq<
    char,
> {
    match first {
        Some(v) => v@,
        None => match second {
            Some(v) => v@,
            None => default,
        },
    }
}

/// Path-style addressing unless the setting is `false` (in any case) or `0`.
pub open spec fn path_style_of(v: Option<String>) -> bool {
    match v {
        Some(s) => lowercase_of(s@) != "false"@ && s@ != "0"@,
        None => true,
    }
}

fn pick(first: Option<String>, second: Option<String>, default: &str) -> (r: String)
    ensures
        r@ == setting(first, second, default@),
{
    match first {
        Some(v) => v,
        None => match second {
            Some(v) => v,
            None => String::from_str(default),
        },
    }
}

/// Whether path-style addressing is used: yes unless the setting is `false`
/// (compared without regard to case) or exactly `0`.
pub fn force_path_style(v: &Option<String>) -> (r: bool)
    ensures
        r == path_style_of(*v),
{
    match v {
        Some(s) => {
            let lower = to_lowercase(s.as_str());
            !same_text(lower.as_str(), "false") && !same_text(s.as_str(), "0")
        },
        None => true,
    }
}

/// The settings in force: each `S3_*` value before its `MINIO_*` fallback
/// before the built-in default (`http://localhost:9000`, `admin`, `12345678`,
/// `videos`; region `us-east-1`).
pub fn storage_config(env: StorageEnv) -> (r: StorageConfig)
    ensures
        r.endpoint@ == setting(env.s3_endpoint, env.minio_endpoint, "http://localhost:9000"@),
        r.access_key@ == setting(env.s3_access_key, env.minio_access_key, "admin"@),
        r.secret_key@ == setting(env.s3_secret_key, env.minio_secret_key, "12345678"@),
        r.bucket@ == setting(env.s3_bucket, env.minio_bucket, "videos"@),
        r.region@ == setting(env.s3_region, None, "us-east-1"@),
        r.force_path_style == path_style_of(env.s3_force_path_style),
{
    let force = force_path_style(&env.s3_force_path_style);
    StorageConfig {
        endpoint: pick(env.s3_endpoint, env.minio_endpoint, "http://localhost:9000"),
        access_key: pick(env.s3_access_key, env.minio_access_key, "admin"),
        secret_key: pick(env.s3_secret_key, env.minio_secret_key, "12345678"),
        bucket: pick(env.s3_bucket, env.minio_bucket, "videos"),
        region: pick(env.s3_region, None, "us-east-1"),
        force_path_style: force,
    }
}

/// How the probe of the bucket (`HEAD`) ended.
#[derive(Debug)]
pub enum BucketProbe {
    /// The bucket answered.
    Found,
    /// The service answered with this HTTP status.
    Refused(u16),
    /// No HTTP answer (address, network or TLS failure).
    Unreachable,
}

/// What start-up does after probing the bucket.
#[derive(Debug)]
pub enum BucketStep {
    /// The bucket is there and the credentials work.
    Ready,
    /// The bucket does not exist: create it.
    Create,
    /// The credentials were refused (401 or 403): stop, without creating.
    AuthFailed(u16),
    /// Another HTTP status: stop.
    Failed(u16),
    /// The service could not be reached: stop.
    Unreachable,
}

/// The next step after probing the bucket: 401 and 403 are credential
/// failures, 404 means the bucket is to be created, any other status or no
/// answer at all is a failure.
pub fn bucket_step(probe: &BucketProbe) -> (r: BucketStep)
    ensures
        probe is Found ==> r is Ready,
        probe is Unreachable ==> r is Unreachable,
        (probe matches BucketProbe::Refused(s) && (s == 401 || s == 403)) ==> r
            == BucketStep::AuthFailed(probe->0),
        (probe matches BucketProbe::Refused(s) && s == 404) ==> r is Create,
        (probe matches BucketProbe::Refused(s) && s != 401 && s != 403 && s != 404) ==> r
            == BucketStep::Failed(probe->0),
{
    match probe {
        BucketProbe::Found => BucketStep::Ready,
        BucketProbe::Refused(s) => {
            if *s == 401 || *s == 403 {
                BucketStep::AuthFailed(*s)
            } else if *s == 404 {
                BucketStep::Create
            } else {
                BucketStep::Failed(*s)
            }
        },
        BucketProbe::Unreachable => BucketStep::Unreachable,
    }
}

/// The message for refused credentials.
pub open spec fn auth_failed_message(status: u16, bucket: Seq<char>) -> Seq<char> {
    "认证失败（HTTP "@ + int_text_of(status as int)
        + "）：请检查 S3_ACCESS_KEY / S3_SECRET_KEY 是否正确，以及该 AccessKey 是否拥有操作 bucket '"@
        + bucket
        + "' 的权限。阿里云 OSS 请确认已开启 S3 兼容 API 且子账号已授权 oss:GetBucket / oss:PutObject 等权限。"@
}

/// The start-up error when the probe's credentials were refused.
pub fn auth_failed(status: u16, bucket: &str) -> (r: String)
    ensures
        r@ == auth_failed_message(status, bucket@),
{
    let mut m = String::from_str("认证失败（HTTP ");
    let code = int_text(status as i64);
    m.append(code.as_str());
    m.append(
        "）：请检查 S3_ACCESS_KEY / S3_SECRET_KEY 是否正确，以及该 AccessKey 是否拥有操作 bucket '",
    );
    m.append(bucket);
    m.append(
        "' 的权限。阿里云 OSS 请确认已开启 S3 兼容 API 且子账号已授权 oss:GetBucket / oss:PutObject 等权限。",
    );
    m
}

/// The message when the credentials may not create the bucket.
pub open spec fn create_refused_message(status: u16, bucket: Seq<char>) -> Seq<char> {
    "创建存储桶被拒绝（HTTP "@ + int_text_of(status as int)
        + "）：AccessKey 无创建 bucket 权限。请在 OSS 控制台手动创建 bucket '"@ + bucket
        + "'，或为 AccessKey 授予 oss:PutBucket 权限。"@
}

/// The start-up error when creating the bucket failed with HTTP `status`:
/// a refusal of the credentials (401 or 403) gets its own explanation
/// (`Some`); other statuses are reported with the service's error (`None`).
pub fn create_refused(status: u16, bucket: &str) -> (r: Option<String>)
    ensures
        (status == 401 || status == 403) ==> (r matches Some(m) && m@ == create_refused_message(
            status,
            bucket@,
        )),
        !(status == 401 || status == 403) ==> r is None,
{
    if status == 401 || status == 403 {
        let mut m = String::from_str("创建存储桶被拒绝（HTTP ");
        let code = int_text(status as i64);
        m.append(code.as_str());
        m.append("）：AccessKey 无创建 bucket 权限。请在 OSS 控制台手动创建 bucket '");
        m.append(bucket);
        m.append("'，或为 AccessKey 授予 oss:PutBucket 权限。");
        Some(m)
    } else {
        None
    }
}

/// The endpoint named in a start-up error: `S3_ENDPOINT`, else
/// `MINIO_ENDPOINT`, else `<未设置>`.
pub fn endpoint_shown(s3_endpoint: Option<String>, minio_endpoint: Option<String>) -> (r: String)
    ensures
        r@ == setting(s3_endpoint, minio_endpoint, "<未设置>"@),
{
    pick(s3_endpoint, minio_endpoint, "<未设置>")
}

/// The start-up error when the probe got another HTTP status.
pub fn access_failed(status: u16, endpoint: &str, detail: &str) -> (r: String)
    ensures
        r@ == "访问存储桶失败（HTTP "@ + int_text_of(status as int) + "）：请检查 S3_ENDPOINT（当前："@
            + endpoint@ + "）和网络连通性。原始错误："@ + detail@,
{
    let mut m = String::from_str("访问存储桶失败（HTTP ");
    let code = int_text(status as i64);
    m.append(code.as_str());
    m.append("）：请检查 S3_ENDPOINT（当前：");
    m.append(endpoint);
    m.append("）和网络连通性。原始错误：");
    m.append(detail);
    m
}

/// The start-up error when the service could not be reached.
pub fn unreachable_store(detail: &str) -> (r: String)
    ensures
        r@ == "连接对象存储失败（可能是 S3_ENDPOINT 配置有误、网络不通或 TLS 证书问题）："@ + detail@,
{
    let mut m = String::from_str("连接对象存储失败（可能是 S3_ENDPOINT 配置有误、网络不通或 TLS 证书问题）：");
    m.append(detail);
    m
}

/// The start-up error when creating the bucket failed: with the HTTP status
/// when the service answered (a refusal of the credentials explained as in
/// `create_refused`), else with the error alone.
pub fn create_failed(status: Option<u16>, bucket: &str, detail: &str) -> (r: String)
    ensures
        (status matches Some(s) && (s == 401 || s == 403)) ==> r@ == create_refused_message(
            status.unwrap(),
            bucket@,
        ),
        (status matches Some(s) && s != 401 && s != 403) ==> r@ == "创建存储桶失败（HTTP "@ + int_text_of(
            status.unwrap() as int,
        ) + "）："@ + detail@,
        status is None ==> r@ == "创建存储桶失败："@ + detail@,
{
    match status {
        Some(s) => match create_refused(s, bucket) {
            Some(m) => m,
            None => {
                let mut m = String::from_str("创建存储桶失败（HTTP ");
                let code = int_text(s as i64);
                m.append(code.as_str());
                m.append("）：");
                m.append(detail);
                m
            },
        },
        None => {
            let mut m = String::from_str("创建存储桶失败：");
            m.append(detail);
            m
        },
    }
}

} // verus!
