//! The messages of the protocol, one module per message.
pub mod delete_acls_response;
pub mod delete_groups_request;
pub mod delete_records_request;
pub mod delete_share_group_offsets_request;
pub mod delete_topics_request;
pub mod delete_topics_response;
pub mod describe_acls_request;
pub mod describe_client_quotas_request;
pub mod describe_cluster_request;
pub mod describe_cluster_response;
pub mod describe_configs_request;
pub mod describe_configs_response;
pub mod describe_delegation_token_request;
pub mod describe_groups_request;
pub mod describe_groups_response;
pub mod describe_log_dirs_request;
pub mod describe_log_dirs_response;
pub mod describe_quorum_response;
pub mod describe_share_group_offsets_response;
pub mod describe_topic_partitions_request;
pub mod describe_topic_partitions_response;
pub mod describe_transactions_request;
pub mod describe_user_scram_credentials_request;
pub mod describe_user_scram_credentials_response;
pub mod elect_leaders_request;
pub mod elect_leaders_response;
pub mod end_quorum_epoch_request;
pub mod end_txn_marker;
pub mod end_txn_response;
pub mod envelope_request;
pub mod envelope_response;
pub mod expire_delegation_token_request;
pub mod fetch_request;
pub mod fetch_response;
pub mod fetch_snapshot_request;
pub mod fetch_snapshot_response;
pub mod find_coordinator_request;
pub mod find_coordinator_response;
pub mod get_telemetry_subscriptions_request;
pub mod get_telemetry_subscriptions_response;
pub mod incremental_alter_configs_request;
pub mod init_producer_id_request;
pub mod init_producer_id_response;
pub mod join_group_request;
pub mod join_group_response;
pub mod leader_change_message;
pub mod leave_group_request;
pub mod leave_group_response;
pub mod list_config_resources_request;
pub mod list_config_resources_response;
pub mod list_groups_request;
pub mod list_groups_response;
pub mod list_offsets_request;
pub mod list_partition_reassignments_request;
pub mod list_partition_reassignments_response;
pub mod list_transactions_request;
pub mod list_transactions_response;
pub mod metadata_request;
pub mod metadata_response;
