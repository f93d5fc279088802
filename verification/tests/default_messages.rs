use bytes::BytesMut;
use kacrab_protocol::messages::delete_acls_response::DeleteAclsResponseData;
use kacrab_protocol::messages::delete_groups_request::DeleteGroupsRequestData;
use kacrab_protocol::messages::delete_records_request::DeleteRecordsRequestData;
use kacrab_protocol::messages::delete_share_group_offsets_request::DeleteShareGroupOffsetsRequestData;
use kacrab_protocol::messages::delete_topics_request::DeleteTopicsRequestData;
use kacrab_protocol::messages::delete_topics_response::DeleteTopicsResponseData;
use kacrab_protocol::messages::describe_acls_request::DescribeAclsRequestData;
use kacrab_protocol::messages::describe_client_quotas_request::DescribeClientQuotasRequestData;
use kacrab_protocol::messages::describe_cluster_request::DescribeClusterRequestData;
use kacrab_protocol::messages::describe_cluster_response::DescribeClusterResponseData;
use kacrab_protocol::messages::describe_configs_request::DescribeConfigsRequestData;
use kacrab_protocol::messages::describe_configs_response::DescribeConfigsResponseData;
use kacrab_protocol::messages::describe_delegation_token_request::DescribeDelegationTokenRequestData;
use kacrab_protocol::messages::describe_groups_request::DescribeGroupsRequestData;
use kacrab_protocol::messages::describe_groups_response::DescribeGroupsResponseData;
use kacrab_protocol::messages::describe_log_dirs_request::DescribeLogDirsRequestData;
use kacrab_protocol::messages::describe_log_dirs_response::DescribeLogDirsResponseData;
use kacrab_protocol::messages::describe_quorum_response::DescribeQuorumResponseData;
use kacrab_protocol::messages::describe_share_group_offsets_response::DescribeShareGroupOffsetsResponseData;
use kacrab_protocol::messages::describe_topic_partitions_request::DescribeTopicPartitionsRequestData;
use kacrab_protocol::messages::describe_topic_partitions_response::DescribeTopicPartitionsResponseData;
use kacrab_protocol::messages::describe_transactions_request::DescribeTransactionsRequestData;
use kacrab_protocol::messages::describe_user_scram_credentials_request::DescribeUserScramCredentialsRequestData;
use kacrab_protocol::messages::describe_user_scram_credentials_response::DescribeUserScramCredentialsResponseData;
use kacrab_protocol::messages::elect_leaders_request::ElectLeadersRequestData;
use kacrab_protocol::messages::elect_leaders_response::ElectLeadersResponseData;
use kacrab_protocol::messages::end_quorum_epoch_request::EndQuorumEpochRequestData;
use kacrab_protocol::messages::end_txn_response::EndTxnResponseData;
use kacrab_protocol::messages::envelope_request::EnvelopeRequestData;
use kacrab_protocol::messages::envelope_response::EnvelopeResponseData;
use kacrab_protocol::messages::expire_delegation_token_request::ExpireDelegationTokenRequestData;
use kacrab_protocol::messages::fetch_request::FetchRequestData;
use kacrab_protocol::messages::fetch_response::FetchResponseData;
use kacrab_protocol::messages::fetch_snapshot_request::FetchSnapshotRequestData;
use kacrab_protocol::messages::fetch_snapshot_response::FetchSnapshotResponseData;
use kacrab_protocol::messages::find_coordinator_request::FindCoordinatorRequestData;
use kacrab_protocol::messages::find_coordinator_response::FindCoordinatorResponseData;
use kacrab_protocol::messages::get_telemetry_subscriptions_request::GetTelemetrySubscriptionsRequestData;
use kacrab_protocol::messages::get_telemetry_subscriptions_response::GetTelemetrySubscriptionsResponseData;
use kacrab_protocol::messages::incremental_alter_configs_request::IncrementalAlterConfigsRequestData;
use kacrab_protocol::messages::init_producer_id_request::InitProducerIdRequestData;
use kacrab_protocol::messages::init_producer_id_response::InitProducerIdResponseData;
use kacrab_protocol::messages::join_group_request::JoinGroupRequestData;
use kacrab_protocol::messages::join_group_response::JoinGroupResponseData;
use kacrab_protocol::messages::leave_group_request::LeaveGroupRequestData;
use kacrab_protocol::messages::leave_group_response::LeaveGroupResponseData;
use kacrab_protocol::messages::list_config_resources_request::ListConfigResourcesRequestData;
use kacrab_protocol::messages::list_config_resources_response::ListConfigResourcesResponseData;
use kacrab_protocol::messages::list_groups_request::ListGroupsRequestData;
use kacrab_protocol::messages::list_groups_response::ListGroupsResponseData;
use kacrab_protocol::messages::list_offsets_request::ListOffsetsRequestData;
use kacrab_protocol::messages::list_partition_reassignments_request::ListPartitionReassignmentsRequestData;
use kacrab_protocol::messages::list_partition_reassignments_response::ListPartitionReassignmentsResponseData;
use kacrab_protocol::messages::list_transactions_request::ListTransactionsRequestData;
use kacrab_protocol::messages::list_transactions_response::ListTransactionsResponseData;
use kacrab_protocol::messages::metadata_request::MetadataRequestData;
use kacrab_protocol::messages::metadata_response::MetadataResponseData;

#[test]
fn default_delete_acls_response_data_round_trip() {
    for v in 1i16..=3 {
        let m = DeleteAclsResponseData::default();
        let mut b = BytesMut::new();
        m.write(&mut b, v).unwrap();
        assert_eq!(m.encoded_len(v), Ok(b.len()));
        let first = b.clone().freeze();
        let mut r = b.freeze();
        let back = DeleteAclsResponseData::read(&mut r, v).unwrap();
        assert_eq!(r.len(), 0);
        let mut b2 = BytesMut::new();
        back.write(&mut b2, v).unwrap();
        assert_eq!(&b2[..], &first[..]);
        assert!(DeleteAclsResponseData::read(&mut b2.freeze(), 4).is_err());
    }
}

#[test]
fn default_delete_groups_request_data_round_trip() {
    for v in 0i16..=2 {
        let m = DeleteGroupsRequestData::default();
        let mut b = BytesMut::new();
        m.write(&mut b, v).unwrap();
        assert_eq!(m.encoded_len(v), Ok(b.len()));
        let first = b.clone().freeze();
        let mut r = b.freeze();
        let back = DeleteGroupsRequestData::read(&mut r, v).unwrap();
        assert_eq!(r.len(), 0);
        let mut b2 = BytesMut::new();
        back.write(&mut b2, v).unwrap();
        assert_eq!(&b2[..], &first[..]);
        assert!(DeleteGroupsRequestData::read(&mut b2.freeze(), 3).is_err());
    }
}

#[test]
fn default_delete_records_request_data_round_trip() {
    for v in 0i16..=2 {
        let m = DeleteRecordsRequestData::default();
        let mut b = BytesMut::new();
        m.write(&mut b, v).unwrap();
        assert_eq!(m.encoded_len(v), Ok(b.len()));
        let first = b.clone().freeze();
        let mut r = b.freeze();
        let back = DeleteRecordsRequestData::read(&mut r, v).unwrap();
        assert_eq!(r.len(), 0);
        let mut b2 = BytesMut::new();
        back.write(&mut b2, v).unwrap();
        assert_eq!(&b2[..], &first[..]);
        assert!(DeleteRecordsRequestData::read(&mut b2.freeze(), 3).is_err());
    }
}

#[test]
fn default_delete_share_group_offsets_request_data_round_trip() {
    for v in 0i16..=0 {
        let m = DeleteShareGroupOffsetsRequestData::default();
        let mut b = BytesMut::new();
        m.write(&mut b, v).unwrap();
        assert_eq!(m.encoded_len(v), Ok(b.len()));
        let first = b.clone().freeze();
        let mut r = b.freeze();
        let back = DeleteShareGroupOffsetsRequestData::read(&mut r, v).unwrap();
        assert_eq!(r.len(), 0);
        let mut b2 = BytesMut::new();
        back.write(&mut b2, v).unwrap();
        assert_eq!(&b2[..], &first[..]);
        assert!(DeleteShareGroupOffsetsRequestData::read(&mut b2.freeze(), 1).is_err());
    }
}

#[test]
fn default_delete_topics_request_data_round_trip() {
    for v in 1i16..=6 {
        let m = DeleteTopicsRequestData::default();
        let mut b = BytesMut::new();
        m.write(&mut b, v).unwrap();
        assert_eq!(m.encoded_len(v), Ok(b.len()));
        let first = b.clone().freeze();
        let mut r = b.freeze();
        let back = DeleteTopicsRequestData::read(&mut r, v).unwrap();
        assert_eq!(r.len(), 0);
        let mut b2 = BytesMut::new();
        back.write(&mut b2, v).unwrap();
        assert_eq!(&b2[..], &first[..]);
        assert!(DeleteTopicsRequestData::read(&mut b2.freeze(), 7).is_err());
    }
}

#[test]
fn default_delete_topics_response_data_round_trip() {
    for v in 1i16..=6 {
        let m = DeleteTopicsResponseData::default();
        let mut b = BytesMut::new();
        m.write(&mut b, v).unwrap();
        let first = b.clone().freeze();
        let mut r = b.freeze();
        let back = DeleteTopicsResponseData::read(&mut r, v).unwrap();
        assert_eq!(r.len(), 0);
        let mut b2 = BytesMut::new();
        back.write(&mut b2, v).unwrap();
        assert_eq!(&b2[..], &first[..]);
        assert!(DeleteTopicsResponseData::read(&mut b2.freeze(), 7).is_err());
    }
}

#[test]
fn default_describe_acls_request_data_round_trip() {
    for v in 1i16..=3 {
        let m = DescribeAclsRequestData::default();
        let mut b = BytesMut::new();
        m.write(&mut b, v).unwrap();
        let first = b.clone().freeze();
        let mut r = b.freeze();
        let back = DescribeAclsRequestData::read(&mut r, v).unwrap();
        assert_eq!(r.len(), 0);
        let mut b2 = BytesMut::new();
        back.write(&mut b2, v).unwrap();
        assert_eq!(&b2[..], &first[..]);
        assert!(DescribeAclsRequestData::read(&mut b2.freeze(), 4).is_err());
    }
}

#[test]
fn default_describe_client_quotas_request_data_round_trip() {
    for v in 0i16..=1 {
        let m = DescribeClientQuotasRequestData::default();
        let mut b = BytesMut::new();
        m.write(&mut b, v).unwrap();
        assert_eq!(m.encoded_len(v), Ok(b.len()));
        let first = b.clone().freeze();
        let mut r = b.freeze();
        let back = DescribeClientQuotasRequestData::read(&mut r, v).unwrap();
        assert_eq!(r.len(), 0);
        let mut b2 = BytesMut::new();
        back.write(&mut b2, v).unwrap();
        assert_eq!(&b2[..], &first[..]);
        assert!(DescribeClientQuotasRequestData::read(&mut b2.freeze(), 2).is_err());
    }
}

#[test]
fn default_describe_cluster_request_data_round_trip() {
    for v in 0i16..=2 {
        let m = DescribeClusterRequestData::default();
        let mut b = BytesMut::new();
        m.write(&mut b, v).unwrap();
        assert_eq!(m.encoded_len(v), Ok(b.len()));
        let first = b.clone().freeze();
        let mut r = b.freeze();
        let back = DescribeClusterRequestData::read(&mut r, v).unwrap();
        assert_eq!(r.len(), 0);
        let mut b2 = BytesMut::new();
        back.write(&mut b2, v).unwrap();
        assert_eq!(&b2[..], &first[..]);
        assert!(DescribeClusterRequestData::read(&mut b2.freeze(), 3).is_err());
    }
}

#[test]
fn default_describe_cluster_response_data_round_trip() {
    for v in 0i16..=2 {
        let m = DescribeClusterResponseData::default();
        let mut b = BytesMut::new();
        m.write(&mut b, v).unwrap();
        let first = b.clone().freeze();
        let mut r = b.freeze();
        let back = DescribeClusterResponseData::read(&mut r, v).unwrap();
        assert_eq!(r.len(), 0);
        let mut b2 = BytesMut::new();
        back.write(&mut b2, v).unwrap();
        assert_eq!(&b2[..], &first[..]);
        assert!(DescribeClusterResponseData::read(&mut b2.freeze(), 3).is_err());
    }
}

#[test]
fn default_describe_configs_request_data_round_trip() {
    for v in 1i16..=4 {
        let m = DescribeConfigsRequestData::default();
        let mut b = BytesMut::new();
        m.write(&mut b, v).unwrap();
        let first = b.clone().freeze();
        let mut r = b.freeze();
        let back = DescribeConfigsRequestData::read(&mut r, v).unwrap();
        assert_eq!(r.len(), 0);
        let mut b2 = BytesMut::new();
        back.write(&mut b2, v).unwrap();
        assert_eq!(&b2[..], &first[..]);
        assert!(DescribeConfigsRequestData::read(&mut b2.freeze(), 5).is_err());
    }
}

#[test]
fn default_describe_configs_response_data_round_trip() {
    for v in 1i16..=4 {
        let m = DescribeConfigsResponseData::default();
        let mut b = BytesMut::new();
        m.write(&mut b, v).unwrap();
        assert_eq!(m.encoded_len(v), Ok(b.len()));
        let first = b.clone().freeze();
        let mut r = b.freeze();
        let back = DescribeConfigsResponseData::read(&mut r, v).unwrap();
        assert_eq!(r.len(), 0);
        let mut b2 = BytesMut::new();
        back.write(&mut b2, v).unwrap();
        assert_eq!(&b2[..], &first[..]);
        assert!(DescribeConfigsResponseData::read(&mut b2.freeze(), 5).is_err());
    }
}

#[test]
fn default_describe_delegation_token_request_data_round_trip() {
    for v in 1i16..=3 {
        let m = DescribeDelegationTokenRequestData::default();
        let mut b = BytesMut::new();
        m.write(&mut b, v).unwrap();
        let first = b.clone().freeze();
        let mut r = b.freeze();
        let back = DescribeDelegationTokenRequestData::read(&mut r, v).unwrap();
        assert_eq!(r.len(), 0);
        let mut b2 = BytesMut::new();
        back.write(&mut b2, v).unwrap();
        assert_eq!(&b2[..], &first[..]);
        assert!(DescribeDelegationTokenRequestData::read(&mut b2.freeze(), 4).is_err());
    }
}

#[test]
fn default_describe_groups_request_data_round_trip() {
    for v in 0i16..=6 {
        let m = DescribeGroupsRequestData::default();
        let mut b = BytesMut::new();
        m.write(&mut b, v).unwrap();
        let first = b.clone().freeze();
        let mut r = b.freeze();
        let back = DescribeGroupsRequestData::read(&mut r, v).unwrap();
        assert_eq!(r.len(), 0);
        let mut b2 = BytesMut::new();
        back.write(&mut b2, v).unwrap();
        assert_eq!(&b2[..], &first[..]);
        assert!(DescribeGroupsRequestData::read(&mut b2.freeze(), 7).is_err());
    }
}

#[test]
fn default_describe_groups_response_data_round_trip() {
    for v in 0i16..=6 {
        let m = DescribeGroupsResponseData::default();
        let mut b = BytesMut::new();
        m.write(&mut b, v).unwrap();
        let first = b.clone().freeze();
        let mut r = b.freeze();
        let back = DescribeGroupsResponseData::read(&mut r, v).unwrap();
        assert_eq!(r.len(), 0);
        let mut b2 = BytesMut::new();
        back.write(&mut b2, v).unwrap();
        assert_eq!(&b2[..], &first[..]);
        assert!(DescribeGroupsResponseData::read(&mut b2.freeze(), 7).is_err());
    }
}

#[test]
fn default_describe_log_dirs_request_data_round_trip() {
    for v in 1i16..=5 {
        let m = DescribeLogDirsRequestData::default();
        let mut b = BytesMut::new();
        m.write(&mut b, v).unwrap();
        assert_eq!(m.encoded_len(v), Ok(b.len()));
        let first = b.clone().freeze();
        let mut r = b.freeze();
        let back = DescribeLogDirsRequestData::read(&mut r, v).unwrap();
        assert_eq!(r.len(), 0);
        let mut b2 = BytesMut::new();
        back.write(&mut b2, v).unwrap();
        assert_eq!(&b2[..], &first[..]);
        assert!(DescribeLogDirsRequestData::read(&mut b2.freeze(), 6).is_err());
    }
}

#[test]
fn default_describe_log_dirs_response_data_round_trip() {
    for v in 1i16..=5 {
        let m = DescribeLogDirsResponseData::default();
        let mut b = BytesMut::new();
        m.write(&mut b, v).unwrap();
        assert_eq!(m.encoded_len(v), Ok(b.len()));
        let first = b.clone().freeze();
        let mut r = b.freeze();
        let back = DescribeLogDirsResponseData::read(&mut r, v).unwrap();
        assert_eq!(r.len(), 0);
        let mut b2 = BytesMut::new();
        back.write(&mut b2, v).unwrap();
        assert_eq!(&b2[..], &first[..]);
        assert!(DescribeLogDirsResponseData::read(&mut b2.freeze(), 6).is_err());
    }
}

#[test]
fn default_describe_quorum_response_data_round_trip() {
    for v in 0i16..=2 {
        let m = DescribeQuorumResponseData::default();
        let mut b = BytesMut::new();
        m.write(&mut b, v).unwrap();
        assert_eq!(m.encoded_len(v), Ok(b.len()));
        let first = b.clone().freeze();
        let mut r = b.freeze();
        let back = DescribeQuorumResponseData::read(&mut r, v).unwrap();
        assert_eq!(r.len(), 0);
        let mut b2 = BytesMut::new();
        back.write(&mut b2, v).unwrap();
        assert_eq!(&b2[..], &first[..]);
        assert!(DescribeQuorumResponseData::read(&mut b2.freeze(), 3).is_err());
    }
}

#[test]
fn default_describe_share_group_offsets_response_data_round_trip() {
    for v in 0i16..=1 {
        let m = DescribeShareGroupOffsetsResponseData::default();
        let mut b = BytesMut::new();
        m.write(&mut b, v).unwrap();
        let first = b.clone().freeze();
        let mut r = b.freeze();
        let back = DescribeShareGroupOffsetsResponseData::read(&mut r, v).unwrap();
        assert_eq!(r.len(), 0);
        let mut b2 = BytesMut::new();
        back.write(&mut b2, v).unwrap();
        assert_eq!(&b2[..], &first[..]);
        assert!(DescribeShareGroupOffsetsResponseData::read(&mut b2.freeze(), 2).is_err());
    }
}

#[test]
fn default_describe_topic_partitions_request_data_round_trip() {
    for v in 0i16..=0 {
        let m = DescribeTopicPartitionsRequestData::default();
        let mut b = BytesMut::new();
        m.write(&mut b, v).unwrap();
        let first = b.clone().freeze();
        let mut r = b.freeze();
        let back = DescribeTopicPartitionsRequestData::read(&mut r, v).unwrap();
        assert_eq!(r.len(), 0);
        let mut b2 = BytesMut::new();
        back.write(&mut b2, v).unwrap();
        assert_eq!(&b2[..], &first[..]);
        assert!(DescribeTopicPartitionsRequestData::read(&mut b2.freeze(), 1).is_err());
    }
}

#[test]
fn default_describe_topic_partitions_response_data_round_trip() {
    for v in 0i16..=0 {
        let m = DescribeTopicPartitionsResponseData::default();
        let mut b = BytesMut::new();
        m.write(&mut b, v).unwrap();
        let first = b.clone().freeze();
        let mut r = b.freeze();
        let back = DescribeTopicPartitionsResponseData::read(&mut r, v).unwrap();
        assert_eq!(r.len(), 0);
        let mut b2 = BytesMut::new();
        back.write(&mut b2, v).unwrap();
        assert_eq!(&b2[..], &first[..]);
        assert!(DescribeTopicPartitionsResponseData::read(&mut b2.freeze(), 1).is_err());
    }
}

#[test]
fn default_describe_transactions_request_data_round_trip() {
    for v in 0i16..=0 {
        let m = DescribeTransactionsRequestData::default();
        let mut b = BytesMut::new();
        m.write(&mut b, v).unwrap();
        assert_eq!(m.encoded_len(v), Ok(b.len()));
        let first = b.clone().freeze();
        let mut r = b.freeze();
        let back = DescribeTransactionsRequestData::read(&mut r, v).unwrap();
        assert_eq!(r.len(), 0);
        let mut b2 = BytesMut::new();
        back.write(&mut b2, v).unwrap();
        assert_eq!(&b2[..], &first[..]);
        assert!(DescribeTransactionsRequestData::read(&mut b2.freeze(), 1).is_err());
    }
}

#[test]
fn default_describe_user_scram_credentials_request_data_round_trip() {
    for v in 0i16..=0 {
        let m = DescribeUserScramCredentialsRequestData::default();
        let mut b = BytesMut::new();
        m.write(&mut b, v).unwrap();
        assert_eq!(m.encoded_len(v), Ok(b.len()));
        let first = b.clone().freeze();
        let mut r = b.freeze();
        let back = DescribeUserScramCredentialsRequestData::read(&mut r, v).unwrap();
        assert_eq!(r.len(), 0);
        let mut b2 = BytesMut::new();
        back.write(&mut b2, v).unwrap();
        assert_eq!(&b2[..], &first[..]);
        assert!(DescribeUserScramCredentialsRequestData::read(&mut b2.freeze(), 1).is_err());
    }
}

#[test]
fn default_describe_user_scram_credentials_response_data_round_trip() {
    for v in 0i16..=0 {
        let m = DescribeUserScramCredentialsResponseData::default();
        let mut b = BytesMut::new();
        m.write(&mut b, v).unwrap();
        assert_eq!(m.encoded_len(v), Ok(b.len()));
        let first = b.clone().freeze();
        let mut r = b.freeze();
        let back = DescribeUserScramCredentialsResponseData::read(&mut r, v).unwrap();
        assert_eq!(r.len(), 0);
        let mut b2 = BytesMut::new();
        back.write(&mut b2, v).unwrap();
        assert_eq!(&b2[..], &first[..]);
        assert!(DescribeUserScramCredentialsResponseData::read(&mut b2.freeze(), 1).is_err());
    }
}

#[test]
fn default_elect_leaders_request_data_round_trip() {
    for v in 0i16..=2 {
        let m = ElectLeadersRequestData::default();
        let mut b = BytesMut::new();
        m.write(&mut b, v).unwrap();
        assert_eq!(m.encoded_len(v), Ok(b.len()));
        let first = b.clone().freeze();
        let mut r = b.freeze();
        let back = ElectLeadersRequestData::read(&mut r, v).unwrap();
        assert_eq!(r.len(), 0);
        let mut b2 = BytesMut::new();
        back.write(&mut b2, v).unwrap();
        assert_eq!(&b2[..], &first[..]);
        assert!(ElectLeadersRequestData::read(&mut b2.freeze(), 3).is_err());
    }
}

#[test]
fn default_elect_leaders_response_data_round_trip() {
    for v in 0i16..=2 {
        let m = ElectLeadersResponseData::default();
        let mut b = BytesMut::new();
        m.write(&mut b, v).unwrap();
        assert_eq!(m.encoded_len(v), Ok(b.len()));
        let first = b.clone().freeze();
        let mut r = b.freeze();
        let back = ElectLeadersResponseData::read(&mut r, v).unwrap();
        assert_eq!(r.len(), 0);
        let mut b2 = BytesMut::new();
        back.write(&mut b2, v).unwrap();
        assert_eq!(&b2[..], &first[..]);
        assert!(ElectLeadersResponseData::read(&mut b2.freeze(), 3).is_err());
    }
}

#[test]
fn default_end_quorum_epoch_request_data_round_trip() {
    for v in 0i16..=1 {
        let m = EndQuorumEpochRequestData::default();
        let mut b = BytesMut::new();
        m.write(&mut b, v).unwrap();
        let first = b.clone().freeze();
        let mut r = b.freeze();
        let back = EndQuorumEpochRequestData::read(&mut r, v).unwrap();
        assert_eq!(r.len(), 0);
        let mut b2 = BytesMut::new();
        back.write(&mut b2, v).unwrap();
        assert_eq!(&b2[..], &first[..]);
        assert!(EndQuorumEpochRequestData::read(&mut b2.freeze(), 2).is_err());
    }
}

#[test]
fn default_end_txn_response_data_round_trip() {
    for v in 0i16..=5 {
        let m = EndTxnResponseData::default();
        let mut b = BytesMut::new();
        m.write(&mut b, v).unwrap();
        assert_eq!(m.encoded_len(v), Ok(b.len()));
        let first = b.clone().freeze();
        let mut r = b.freeze();
        let back = EndTxnResponseData::read(&mut r, v).unwrap();
        assert_eq!(r.len(), 0);
        let mut b2 = BytesMut::new();
        back.write(&mut b2, v).unwrap();
        assert_eq!(&b2[..], &first[..]);
        assert!(EndTxnResponseData::read(&mut b2.freeze(), 6).is_err());
    }
}

#[test]
fn default_envelope_request_data_round_trip() {
    for v in 0i16..=0 {
        let m = EnvelopeRequestData::default();
        let mut b = BytesMut::new();
        m.write(&mut b, v).unwrap();
        let first = b.clone().freeze();
        let mut r = b.freeze();
        let back = EnvelopeRequestData::read(&mut r, v).unwrap();
        assert_eq!(r.len(), 0);
        let mut b2 = BytesMut::new();
        back.write(&mut b2, v).unwrap();
        assert_eq!(&b2[..], &first[..]);
        assert!(EnvelopeRequestData::read(&mut b2.freeze(), 1).is_err());
    }
}

#[test]
fn default_envelope_response_data_round_trip() {
    for v in 0i16..=0 {
        let m = EnvelopeResponseData::default();
        let mut b = BytesMut::new();
        m.write(&mut b, v).unwrap();
        assert_eq!(m.encoded_len(v), Ok(b.len()));
        let first = b.clone().freeze();
        let mut r = b.freeze();
        let back = EnvelopeResponseData::read(&mut r, v).unwrap();
        assert_eq!(r.len(), 0);
        let mut b2 = BytesMut::new();
        back.write(&mut b2, v).unwrap();
        assert_eq!(&b2[..], &first[..]);
        assert!(EnvelopeResponseData::read(&mut b2.freeze(), 1).is_err());
    }
}

#[test]
fn default_expire_delegation_token_request_data_round_trip() {
    for v in 1i16..=2 {
        let m = ExpireDelegationTokenRequestData::default();
        let mut b = BytesMut::new();
        m.write(&mut b, v).unwrap();
        let first = b.clone().freeze();
        let mut r = b.freeze();
        let back = ExpireDelegationTokenRequestData::read(&mut r, v).unwrap();
        assert_eq!(r.len(), 0);
        let mut b2 = BytesMut::new();
        back.write(&mut b2, v).unwrap();
        assert_eq!(&b2[..], &first[..]);
        assert!(ExpireDelegationTokenRequestData::read(&mut b2.freeze(), 3).is_err());
    }
}

#[test]
fn default_fetch_request_data_round_trip() {
    for v in 4i16..=18 {
        let m = FetchRequestData::default();
        let mut b = BytesMut::new();
        m.write(&mut b, v).unwrap();
        assert_eq!(m.encoded_len(v), Ok(b.len()));
        let first = b.clone().freeze();
        let mut r = b.freeze();
        let back = FetchRequestData::read(&mut r, v).unwrap();
        assert_eq!(r.len(), 0);
        let mut b2 = BytesMut::new();
        back.write(&mut b2, v).unwrap();
        assert_eq!(&b2[..], &first[..]);
        assert!(FetchRequestData::read(&mut b2.freeze(), 19).is_err());
    }
}

#[test]
fn default_fetch_response_data_round_trip() {
    for v in 4i16..=18 {
        let m = FetchResponseData::default();
        let mut b = BytesMut::new();
        m.write(&mut b, v).unwrap();
        let first = b.clone().freeze();
        let mut r = b.freeze();
        let back = FetchResponseData::read(&mut r, v).unwrap();
        assert_eq!(r.len(), 0);
        let mut b2 = BytesMut::new();
        back.write(&mut b2, v).unwrap();
        assert_eq!(&b2[..], &first[..]);
        assert!(FetchResponseData::read(&mut b2.freeze(), 19).is_err());
    }
}

#[test]
fn default_fetch_snapshot_request_data_round_trip() {
    for v in 0i16..=1 {
        let m = FetchSnapshotRequestData::default();
        let mut b = BytesMut::new();
        m.write(&mut b, v).unwrap();
        assert_eq!(m.encoded_len(v), Ok(b.len()));
        let first = b.clone().freeze();
        let mut r = b.freeze();
        let back = FetchSnapshotRequestData::read(&mut r, v).unwrap();
        assert_eq!(r.len(), 0);
        let mut b2 = BytesMut::new();
        back.write(&mut b2, v).unwrap();
        assert_eq!(&b2[..], &first[..]);
        assert!(FetchSnapshotRequestData::read(&mut b2.freeze(), 2).is_err());
    }
}

#[test]
fn default_fetch_snapshot_response_data_round_trip() {
    for v in 0i16..=1 {
        let m = FetchSnapshotResponseData::default();
        let mut b = BytesMut::new();
        m.write(&mut b, v).unwrap();
        let first = b.clone().freeze();
        let mut r = b.freeze();
        let back = FetchSnapshotResponseData::read(&mut r, v).unwrap();
        assert_eq!(r.len(), 0);
        let mut b2 = BytesMut::new();
        back.write(&mut b2, v).unwrap();
        assert_eq!(&b2[..], &first[..]);
        assert!(FetchSnapshotResponseData::read(&mut b2.freeze(), 2).is_err());
    }
}

#[test]
fn default_find_coordinator_request_data_round_trip() {
    for v in 0i16..=6 {
        let m = FindCoordinatorRequestData::default();
        let mut b = BytesMut::new();
        m.write(&mut b, v).unwrap();
        let first = b.clone().freeze();
        let mut r = b.freeze();
        let back = FindCoordinatorRequestData::read(&mut r, v).unwrap();
        assert_eq!(r.len(), 0);
        let mut b2 = BytesMut::new();
        back.write(&mut b2, v).unwrap();
        assert_eq!(&b2[..], &first[..]);
        assert!(FindCoordinatorRequestData::read(&mut b2.freeze(), 7).is_err());
    }
}

#[test]
fn default_find_coordinator_response_data_round_trip() {
    for v in 0i16..=6 {
        let m = FindCoordinatorResponseData::default();
        let mut b = BytesMut::new();
        m.write(&mut b, v).unwrap();
        assert_eq!(m.encoded_len(v), Ok(b.len()));
        let first = b.clone().freeze();
        let mut r = b.freeze();
        let back = FindCoordinatorResponseData::read(&mut r, v).unwrap();
        assert_eq!(r.len(), 0);
        let mut b2 = BytesMut::new();
        back.write(&mut b2, v).unwrap();
        assert_eq!(&b2[..], &first[..]);
        assert!(FindCoordinatorResponseData::read(&mut b2.freeze(), 7).is_err());
    }
}

#[test]
fn default_get_telemetry_subscriptions_request_data_round_trip() {
    for v in 0i16..=0 {
        let m = GetTelemetrySubscriptionsRequestData::default();
        let mut b = BytesMut::new();
        m.write(&mut b, v).unwrap();
        assert_eq!(m.encoded_len(v), Ok(b.len()));
        let first = b.clone().freeze();
        let mut r = b.freeze();
        let back = GetTelemetrySubscriptionsRequestData::read(&mut r, v).unwrap();
        assert_eq!(r.len(), 0);
        let mut b2 = BytesMut::new();
        back.write(&mut b2, v).unwrap();
        assert_eq!(&b2[..], &first[..]);
        assert!(GetTelemetrySubscriptionsRequestData::read(&mut b2.freeze(), 1).is_err());
    }
}

#[test]
fn default_get_telemetry_subscriptions_response_data_round_trip() {
    for v in 0i16..=0 {
        let m = GetTelemetrySubscriptionsResponseData::default();
        let mut b = BytesMut::new();
        m.write(&mut b, v).unwrap();
        let first = b.clone().freeze();
        let mut r = b.freeze();
        let back = GetTelemetrySubscriptionsResponseData::read(&mut r, v).unwrap();
        assert_eq!(r.len(), 0);
        let mut b2 = BytesMut::new();
        back.write(&mut b2, v).unwrap();
        assert_eq!(&b2[..], &first[..]);
        assert!(GetTelemetrySubscriptionsResponseData::read(&mut b2.freeze(), 1).is_err());
    }
}

#[test]
fn default_incremental_alter_configs_request_data_round_trip() {
    for v in 0i16..=1 {
        let m = IncrementalAlterConfigsRequestData::default();
        let mut b = BytesMut::new();
        m.write(&mut b, v).unwrap();
        let first = b.clone().freeze();
        let mut r = b.freeze();
        let back = IncrementalAlterConfigsRequestData::read(&mut r, v).unwrap();
        assert_eq!(r.len(), 0);
        let mut b2 = BytesMut::new();
        back.write(&mut b2, v).unwrap();
        assert_eq!(&b2[..], &first[..]);
        assert!(IncrementalAlterConfigsRequestData::read(&mut b2.freeze(), 2).is_err());
    }
}

#[test]
fn default_init_producer_id_request_data_round_trip() {
    for v in 0i16..=6 {
        let m = InitProducerIdRequestData::default();
        let mut b = BytesMut::new();
        m.write(&mut b, v).unwrap();
        assert_eq!(m.encoded_len(v), Ok(b.len()));
        let first = b.clone().freeze();
        let mut r = b.freeze();
        let back = InitProducerIdRequestData::read(&mut r, v).unwrap();
        assert_eq!(r.len(), 0);
        let mut b2 = BytesMut::new();
        back.write(&mut b2, v).unwrap();
        assert_eq!(&b2[..], &first[..]);
        assert!(InitProducerIdRequestData::read(&mut b2.freeze(), 7).is_err());
    }
}

#[test]
fn default_init_producer_id_response_data_round_trip() {
    for v in 0i16..=6 {
        let m = InitProducerIdResponseData::default();
        let mut b = BytesMut::new();
        m.write(&mut b, v).unwrap();
        assert_eq!(m.encoded_len(v), Ok(b.len()));
        let first = b.clone().freeze();
        let mut r = b.freeze();
        let back = InitProducerIdResponseData::read(&mut r, v).unwrap();
        assert_eq!(r.len(), 0);
        let mut b2 = BytesMut::new();
        back.write(&mut b2, v).unwrap();
        assert_eq!(&b2[..], &first[..]);
        assert!(InitProducerIdResponseData::read(&mut b2.freeze(), 7).is_err());
    }
}

#[test]
fn default_join_group_request_data_round_trip() {
    for v in 0i16..=9 {
        let m = JoinGroupRequestData::default();
        let mut b = BytesMut::new();
        m.write(&mut b, v).unwrap();
        let first = b.clone().freeze();
        let mut r = b.freeze();
        let back = JoinGroupRequestData::read(&mut r, v).unwrap();
        assert_eq!(r.len(), 0);
        let mut b2 = BytesMut::new();
        back.write(&mut b2, v).unwrap();
        assert_eq!(&b2[..], &first[..]);
        assert!(JoinGroupRequestData::read(&mut b2.freeze(), 10).is_err());
    }
}

#[test]
fn default_join_group_response_data_round_trip() {
    for v in 0i16..=9 {
        let m = JoinGroupResponseData::default();
        let mut b = BytesMut::new();
        m.write(&mut b, v).unwrap();
        let first = b.clone().freeze();
        let mut r = b.freeze();
        let back = JoinGroupResponseData::read(&mut r, v).unwrap();
        assert_eq!(r.len(), 0);
        let mut b2 = BytesMut::new();
        back.write(&mut b2, v).unwrap();
        assert_eq!(&b2[..], &first[..]);
        assert!(JoinGroupResponseData::read(&mut b2.freeze(), 10).is_err());
    }
}

#[test]
fn default_leave_group_request_data_round_trip() {
    for v in 0i16..=5 {
        let m = LeaveGroupRequestData::default();
        let mut b = BytesMut::new();
        m.write(&mut b, v).unwrap();
        assert_eq!(m.encoded_len(v), Ok(b.len()));
        let first = b.clone().freeze();
        let mut r = b.freeze();
        let back = LeaveGroupRequestData::read(&mut r, v).unwrap();
        assert_eq!(r.len(), 0);
        let mut b2 = BytesMut::new();
        back.write(&mut b2, v).unwrap();
        assert_eq!(&b2[..], &first[..]);
        assert!(LeaveGroupRequestData::read(&mut b2.freeze(), 6).is_err());
    }
}

#[test]
fn default_leave_group_response_data_round_trip() {
    for v in 0i16..=5 {
        let m = LeaveGroupResponseData::default();
        let mut b = BytesMut::new();
        m.write(&mut b, v).unwrap();
        assert_eq!(m.encoded_len(v), Ok(b.len()));
        let first = b.clone().freeze();
        let mut r = b.freeze();
        let back = LeaveGroupResponseData::read(&mut r, v).unwrap();
        assert_eq!(r.len(), 0);
        let mut b2 = BytesMut::new();
        back.write(&mut b2, v).unwrap();
        assert_eq!(&b2[..], &first[..]);
        assert!(LeaveGroupResponseData::read(&mut b2.freeze(), 6).is_err());
    }
}

#[test]
fn default_list_config_resources_request_data_round_trip() {
    for v in 0i16..=1 {
        let m = ListConfigResourcesRequestData::default();
        let mut b = BytesMut::new();
        m.write(&mut b, v).unwrap();
        let first = b.clone().freeze();
        let mut r = b.freeze();
        let back = ListConfigResourcesRequestData::read(&mut r, v).unwrap();
        assert_eq!(r.len(), 0);
        let mut b2 = BytesMut::new();
        back.write(&mut b2, v).unwrap();
        assert_eq!(&b2[..], &first[..]);
        assert!(ListConfigResourcesRequestData::read(&mut b2.freeze(), 2).is_err());
    }
}

#[test]
fn default_list_config_resources_response_data_round_trip() {
    for v in 0i16..=1 {
        let m = ListConfigResourcesResponseData::default();
        let mut b = BytesMut::new();
        m.write(&mut b, v).unwrap();
        let first = b.clone().freeze();
        let mut r = b.freeze();
        let back = ListConfigResourcesResponseData::read(&mut r, v).unwrap();
        assert_eq!(r.len(), 0);
        let mut b2 = BytesMut::new();
        back.write(&mut b2, v).unwrap();
        assert_eq!(&b2[..], &first[..]);
        assert!(ListConfigResourcesResponseData::read(&mut b2.freeze(), 2).is_err());
    }
}

#[test]
fn default_list_groups_request_data_round_trip() {
    for v in 0i16..=5 {
        let m = ListGroupsRequestData::default();
        let mut b = BytesMut::new();
        m.write(&mut b, v).unwrap();
        assert_eq!(m.encoded_len(v), Ok(b.len()));
        let first = b.clone().freeze();
        let mut r = b.freeze();
        let back = ListGroupsRequestData::read(&mut r, v).unwrap();
        assert_eq!(r.len(), 0);
        let mut b2 = BytesMut::new();
        back.write(&mut b2, v).unwrap();
        assert_eq!(&b2[..], &first[..]);
        assert!(ListGroupsRequestData::read(&mut b2.freeze(), 6).is_err());
    }
}

#[test]
fn default_list_groups_response_data_round_trip() {
    for v in 0i16..=5 {
        let m = ListGroupsResponseData::default();
        let mut b = BytesMut::new();
        m.write(&mut b, v).unwrap();
        let first = b.clone().freeze();
        let mut r = b.freeze();
        let back = ListGroupsResponseData::read(&mut r, v).unwrap();
        assert_eq!(r.len(), 0);
        let mut b2 = BytesMut::new();
        back.write(&mut b2, v).unwrap();
        assert_eq!(&b2[..], &first[..]);
        assert!(ListGroupsResponseData::read(&mut b2.freeze(), 6).is_err());
    }
}

#[test]
fn default_list_offsets_request_data_round_trip() {
    for v in 1i16..=11 {
        let m = ListOffsetsRequestData::default();
        let mut b = BytesMut::new();
        m.write(&mut b, v).unwrap();
        let first = b.clone().freeze();
        let mut r = b.freeze();
        let back = ListOffsetsRequestData::read(&mut r, v).unwrap();
        assert_eq!(r.len(), 0);
        let mut b2 = BytesMut::new();
        back.write(&mut b2, v).unwrap();
        assert_eq!(&b2[..], &first[..]);
        assert!(ListOffsetsRequestData::read(&mut b2.freeze(), 12).is_err());
    }
}

#[test]
fn default_list_partition_reassignments_request_data_round_trip() {
    for v in 0i16..=0 {
        let m = ListPartitionReassignmentsRequestData::default();
        let mut b = BytesMut::new();
        m.write(&mut b, v).unwrap();
        assert_eq!(m.encoded_len(v), Ok(b.len()));
        let first = b.clone().freeze();
        let mut r = b.freeze();
        let back = ListPartitionReassignmentsRequestData::read(&mut r, v).unwrap();
        assert_eq!(r.len(), 0);
        let mut b2 = BytesMut::new();
        back.write(&mut b2, v).unwrap();
        assert_eq!(&b2[..], &first[..]);
        assert!(ListPartitionReassignmentsRequestData::read(&mut b2.freeze(), 1).is_err());
    }
}

#[test]
fn default_list_partition_reassignments_response_data_round_trip() {
    for v in 0i16..=0 {
        let m = ListPartitionReassignmentsResponseData::default();
        let mut b = BytesMut::new();
        m.write(&mut b, v).unwrap();
        assert_eq!(m.encoded_len(v), Ok(b.len()));
        let first = b.clone().freeze();
        let mut r = b.freeze();
        let back = ListPartitionReassignmentsResponseData::read(&mut r, v).unwrap();
        assert_eq!(r.len(), 0);
        let mut b2 = BytesMut::new();
        back.write(&mut b2, v).unwrap();
        assert_eq!(&b2[..], &first[..]);
        assert!(ListPartitionReassignmentsResponseData::read(&mut b2.freeze(), 1).is_err());
    }
}

#[test]
fn default_list_transactions_request_data_round_trip() {
    for v in 0i16..=2 {
        let m = ListTransactionsRequestData::default();
        let mut b = BytesMut::new();
        m.write(&mut b, v).unwrap();
        let first = b.clone().freeze();
        let mut r = b.freeze();
        let back = ListTransactionsRequestData::read(&mut r, v).unwrap();
        assert_eq!(r.len(), 0);
        let mut b2 = BytesMut::new();
        back.write(&mut b2, v).unwrap();
        assert_eq!(&b2[..], &first[..]);
        assert!(ListTransactionsRequestData::read(&mut b2.freeze(), 3).is_err());
    }
}

#[test]
fn default_list_transactions_response_data_round_trip() {
    for v in 0i16..=2 {
        let m = ListTransactionsResponseData::default();
        let mut b = BytesMut::new();
        m.write(&mut b, v).unwrap();
        assert_eq!(m.encoded_len(v), Ok(b.len()));
        let first = b.clone().freeze();
        let mut r = b.freeze();
        let back = ListTransactionsResponseData::read(&mut r, v).unwrap();
        assert_eq!(r.len(), 0);
        let mut b2 = BytesMut::new();
        back.write(&mut b2, v).unwrap();
        assert_eq!(&b2[..], &first[..]);
        assert!(ListTransactionsResponseData::read(&mut b2.freeze(), 3).is_err());
    }
}

#[test]
fn default_metadata_request_data_round_trip() {
    for v in 0i16..=13 {
        let m = MetadataRequestData::default();
        let mut b = BytesMut::new();
        m.write(&mut b, v).unwrap();
        assert_eq!(m.encoded_len(v), Ok(b.len()));
        let first = b.clone().freeze();
        let mut r = b.freeze();
        let back = MetadataRequestData::read(&mut r, v).unwrap();
        assert_eq!(r.len(), 0);
        let mut b2 = BytesMut::new();
        back.write(&mut b2, v).unwrap();
        assert_eq!(&b2[..], &first[..]);
        assert!(MetadataRequestData::read(&mut b2.freeze(), 14).is_err());
    }
}

#[test]
fn default_metadata_response_data_round_trip() {
    for v in 0i16..=13 {
        let m = MetadataResponseData::default();
        let mut b = BytesMut::new();
        m.write(&mut b, v).unwrap();
        assert_eq!(m.encoded_len(v), Ok(b.len()));
        let first = b.clone().freeze();
        let mut r = b.freeze();
        let back = MetadataResponseData::read(&mut r, v).unwrap();
        assert_eq!(r.len(), 0);
        let mut b2 = BytesMut::new();
        back.write(&mut b2, v).unwrap();
        assert_eq!(&b2[..], &first[..]);
        assert!(MetadataResponseData::read(&mut b2.freeze(), 14).is_err());
    }
}
