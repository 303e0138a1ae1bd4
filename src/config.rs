use vstd::prelude::*;

verus! {

/// Which physical store holds the bytes.
#[derive(Debug)]
pub enum StorageConfig {
    /// A directory of the local file system.
    Local { path: String },
    /// An S3-compatible object store.
    S3 {
        bucket: String,
        region: Option<String>,
        endpoint: Option<String>,
        access_key_id: Option<String>,
        secret_access_key: Option<String>,
        allow_http: bool,
    },
}

impl StorageConfig {
    /// A store in the local directory `path`.
    pub fn local(path: String) -> (r: Self)
        ensures
            r matches StorageConfig::Local { path: p } && p@ == path@,
    {
        StorageConfig::Local { path }
    }

    /// An S3-compatible store: the bucket, and optionally the region, the
    /// endpoint and the credentials; `allow_http` permits unencrypted
    /// connections.
    pub fn s3(
        bucket: String,
        region: Option<String>,
        endpoint: Option<String>,
        access_key_id: Option<String>,
        secret_access_key: Option<String>,
        allow_http: bool,
    ) -> (r: Self)
        ensures
            r == (StorageConfig::S3 {
                bucket,
                region,
                endpoint,
                access_key_id,
                secret_access_key,
                allow_http,
            }),
    {
        StorageConfig::S3 { bucket, region, endpoint, access_key_id, secret_access_key, allow_http }
    }
}

} // verus!
