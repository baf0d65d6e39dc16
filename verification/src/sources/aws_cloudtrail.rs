//! AWS CloudTrail source, read from S3 through SQS notifications.
use vstd::prelude::*;

use super::{Decoding, Source, Transform};
use crate::text::concat2;

verus! {

/// Instance metadata service settings.
pub struct ImdsAuthentication {
    pub max_attempts: u32,
    pub connect_timeout: core::time::Duration,
    pub read_timeout: core::time::Duration,
}

/// How the source authenticates to AWS.
pub enum AwsAuthentication {
    AccessKey {
        access_key_id: String,
        secret_access_key: String,
        session_token: Option<String>,
        assume_role: Option<String>,
        external_id: Option<String>,
        region: Option<String>,
        session_name: Option<String>,
    },
    File { credentials_file: String, profile: String, region: Option<String> },
    Role {
        assume_role: String,
        external_id: Option<String>,
        imds: ImdsAuthentication,
        region: Option<String>,
        session_name: Option<String>,
    },
    Default { imds: Option<ImdsAuthentication>, region: Option<String> },
}

impl Default for AwsAuthentication {
    /// The default credential chain, with no IMDS settings and no region.
    fn default() -> (a: Self)
        ensures
            a matches AwsAuthentication::Default { imds, region } && imds is None && region is None,
    {
        AwsAuthentication::Default { imds: None, region: None }
    }
}

/// The SQS queue that announces new CloudTrail objects.
pub struct SqsConfig {
    pub queue_url: String,
}

impl Default for SqsConfig {
    /// An empty queue URL.
    fn default() -> (s: Self)
        ensures
            s.queue_url@.len() == 0,
    {
        SqsConfig { queue_url: String::new() }
    }
}

/// Settings of a CloudTrail source.
pub struct AwsCloudtrailConfig {
    /// The Vector source type.
    pub _type: String,
    pub auth: Option<AwsAuthentication>,
    pub sqs: SqsConfig,
    pub region: Option<String>,
    pub decoding: Decoding,
}

impl Default for AwsCloudtrailConfig {
    /// Empty settings: no source type, no authentication, an empty queue URL,
    /// no region and the default decoding.
    fn default() -> (c: Self)
        ensures
            c._type@.len() == 0,
            c.auth is None,
            c.sqs.queue_url@.len() == 0,
            c.region is None,
            c.decoding.codec is None,
    {
        AwsCloudtrailConfig {
            _type: String::new(),
            auth: None,
            sqs: SqsConfig::default(),
            region: None,
            decoding: Decoding::default(),
        }
    }
}

impl AwsCloudtrailConfig {
    /// The settings read for a CloudTrail source; its Vector source type is
    /// `aws_s3` and its decoding the default one.
    pub fn from_fields(auth: Option<AwsAuthentication>, sqs: SqsConfig, region: Option<String>) -> (c: Self)
        ensures
            c._type@ == "aws_s3"@,
            c.auth == auth,
            c.sqs == sqs,
            c.region == region,
            c.decoding.codec is None,
    {
        AwsCloudtrailConfig { _type: String::from_str("aws_s3"), auth, sqs, region, decoding: Decoding::default() }
    }

    /// The Vector source type.
    pub fn source_type(&self) -> (s: &String)
        ensures
            s@ == self._type@,
    {
        &self._type
    }
}

/// A CloudTrail source.
pub struct AwsCloudtrail {
    id: String,
    config: AwsCloudtrailConfig,
}

impl AwsCloudtrail {
    /// A CloudTrail source with this identifier and these settings.
    pub fn new(id: String, config: AwsCloudtrailConfig) -> (s: Self)
        ensures
            s.id_view() == id@,
            s.config_view() == config,
    {
        AwsCloudtrail { id, config }
    }

    /// The identifier.
    pub closed spec fn id_view(&self) -> Seq<char> {
        self.id@
    }

    /// The settings.
    pub closed spec fn config_view(&self) -> AwsCloudtrailConfig {
        self.config
    }

    /// The settings.
    pub fn config(&self) -> (c: &AwsCloudtrailConfig)
        ensures
            *c == self.config_view(),
    {
        &self.config
    }
}

impl Source for AwsCloudtrail {
    fn id(&self) -> (s: String)
        ensures
            s@ == self.id_view(),
    {
        self.id.clone()
    }

    /// The SQS queue URL.
    fn friendly_id(&self) -> (s: String)
        ensures
            s@ == self.config_view().sqs.queue_url@,
    {
        self.config.sqs.queue_url.clone()
    }

    fn sourcetype(&self) -> (s: String)
        ensures
            s@ == "aws_cloudtrail"@,
    {
        String::from_str("aws_cloudtrail")
    }

    fn logsource_product(&self) -> (s: Option<String>)
        ensures
            s matches Some(v) && v@ == "aws"@,
    {
        Some(String::from_str("aws"))
    }

    fn logsource_service(&self) -> (s: Option<String>)
        ensures
            s matches Some(v) && v@ == "cloudtrail"@,
    {
        Some(String::from_str("cloudtrail"))
    }

    /// One transform, `pre-aws_cloudtrail_<id>`, that reads the source
    /// `source-aws_cloudtrail_<id>` and splits CloudTrail files into their
    /// `Records` (VRL `. = .Records`).
    fn preprocess_transforms(&self) -> (r: Option<(Vec<(String, Transform)>, String)>)
        ensures
            r matches Some((t, last)) && {
                &&& last@ == "pre-"@ + "aws_cloudtrail"@ + "_"@ + self.id_view()
                &&& t@.len() == 1
                &&& t@[0].0@ == last@
                &&& t@[0].1.inputs@.len() == 1
                &&& t@[0].1.inputs@[0]@ == "source-"@ + "aws_cloudtrail"@ + "_"@ + self.id_view()
                &&& t@[0].1.source matches Some(s) && s@ == ". = .Records"@
                &&& t@[0].1.file is None
            },
    {
        let kind = self.sourcetype();
        let tail = concat2(kind.as_str(), "_");
        let tail = concat2(tail.as_str(), self.id.as_str());
        let source_id = concat2("source-", tail.as_str());
        let pre_id = concat2("pre-", tail.as_str());
        let transform = Transform {
            inputs: vec![source_id],
            source: Some(String::from_str(". = .Records")),
            file: None,
        };
        let name = pre_id.clone();
        let t = vec![(name, transform)];
        proof {
            assert(("pre-"@ + "aws_cloudtrail"@ + "_"@ + self.id_view()) =~= ("pre-"@ + ("aws_cloudtrail"@ + "_"@ + self.id_view())));
            assert(("source-"@ + "aws_cloudtrail"@ + "_"@ + self.id_view()) =~= ("source-"@ + ("aws_cloudtrail"@ + "_"@ + self.id_view())));
        }
        Some((t, pre_id))
    }
}

} // verus!
