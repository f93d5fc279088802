//! The error codes that responses of the protocol carry.
use vstd::prelude::*;
use vstd::string::*;

verus! {

/// An error code of the protocol.
///
/// Every response carries an `i16` error code. This enum gives each known code
/// a name, a message and whether the failed operation may be retried, and keeps
/// a code that this library does not know as `Unknown`.
#[derive(Debug, Clone, Copy, PartialEq, Eq, Hash, Structural)]
#[non_exhaustive]
pub enum ErrorCode {
    UnknownServerError,
    NoError,
    OffsetOutOfRange,
    CorruptMessage,
    UnknownTopicOrPartition,
    InvalidFetchSize,
    LeaderNotAvailable,
    NotLeaderOrFollower,
    RequestTimedOut,
    BrokerNotAvailable,
    ReplicaNotAvailable,
    MessageTooLarge,
    StaleControllerEpoch,
    OffsetMetadataTooLarge,
    NetworkException,
    CoordinatorLoadInProgress,
    CoordinatorNotAvailable,
    NotCoordinator,
    InvalidTopicException,
    RecordListTooLarge,
    NotEnoughReplicas,
    NotEnoughReplicasAfterAppend,
    InvalidRequiredAcks,
    IllegalGeneration,
    InconsistentGroupProtocol,
    InvalidGroupId,
    UnknownMemberId,
    InvalidSessionTimeout,
    RebalanceInProgress,
    InvalidCommitOffsetSize,
    TopicAuthorizationFailed,
    GroupAuthorizationFailed,
    ClusterAuthorizationFailed,
    InvalidTimestamp,
    UnsupportedSaslMechanism,
    IllegalSaslState,
    UnsupportedVersion,
    TopicAlreadyExists,
    InvalidPartitions,
    InvalidReplicationFactor,
    InvalidReplicaAssignment,
    InvalidConfig,
    NotController,
    InvalidRequest,
    UnsupportedForMessageFormat,
    PolicyViolation,
    OutOfOrderSequenceNumber,
    DuplicateSequenceNumber,
    InvalidProducerEpoch,
    InvalidTxnState,
    InvalidProducerIdMapping,
    InvalidTransactionTimeout,
    ConcurrentTransactions,
    TransactionCoordinatorFenced,
    TransactionalIdAuthorizationFailed,
    SecurityDisabled,
    OperationNotAttempted,
    KafkaStorageError,
    LogDirNotFound,
    SaslAuthenticationFailed,
    UnknownProducerId,
    ReassignmentInProgress,
    DelegationTokenAuthDisabled,
    DelegationTokenNotFound,
    DelegationTokenOwnerMismatch,
    DelegationTokenRequestNotAllowed,
    DelegationTokenAuthorizationFailed,
    DelegationTokenExpired,
    InvalidPrincipalType,
    NonEmptyGroup,
    GroupIdNotFound,
    FetchSessionIdNotFound,
    InvalidFetchSessionEpoch,
    ListenerNotFound,
    TopicDeletionDisabled,
    FencedLeaderEpoch,
    UnknownLeaderEpoch,
    UnsupportedCompressionType,
    StaleBrokerEpoch,
    OffsetNotAvailable,
    MemberIdRequired,
    PreferredLeaderNotAvailable,
    GroupMaxSizeReached,
    FencedInstanceId,
    EligibleLeadersNotAvailable,
    ElectionNotNeeded,
    NoReassignmentInProgress,
    GroupSubscribedToTopic,
    InvalidRecord,
    UnstableOffsetCommit,
    ThrottlingQuotaExceeded,
    ProducerFenced,
    ResourceNotFound,
    DuplicateResource,
    UnacceptableCredential,
    InconsistentVoterSet,
    InvalidUpdateVersion,
    FeatureUpdateFailed,
    PrincipalDeserializationFailure,
    SnapshotNotFound,
    PositionOutOfRange,
    UnknownTopicId,
    DuplicateBrokerRegistration,
    BrokerIdNotRegistered,
    InconsistentTopicId,
    InconsistentClusterId,
    TransactionalIdNotFound,
    FetchSessionTopicIdError,
    IneligibleReplica,
    NewLeaderElected,
    OffsetMovedToTieredStorage,
    FencedMemberEpoch,
    UnreleasedInstanceId,
    UnsupportedAssignor,
    StaleMemberEpoch,
    MismatchedEndpointType,
    UnsupportedEndpointType,
    UnknownControllerId,
    UnknownSubscriptionId,
    TelemetryTooLarge,
    InvalidRegistration,
    TransactionAbortable,
    InvalidRecordState,
    ShareSessionNotFound,
    InvalidShareSessionEpoch,
    FencedStateEpoch,
    InvalidVoterKey,
    DuplicateVoter,
    VoterNotFound,
    InvalidRegularExpression,
    RebootstrapRequired,
    StreamsInvalidTopology,
    StreamsInvalidTopologyEpoch,
    StreamsTopologyFenced,
    ShareSessionLimitReached,
    /// An error code that this library does not know.
    Unknown(i16),
}

impl ErrorCode {
    /// The value that stands for the error code on the wire.
    pub open spec fn wire_value(self) -> i16 {
        match self {
            ErrorCode::UnknownServerError => -1i16,
            ErrorCode::NoError => 0i16,
            ErrorCode::OffsetOutOfRange => 1i16,
            ErrorCode::CorruptMessage => 2i16,
            ErrorCode::UnknownTopicOrPartition => 3i16,
            ErrorCode::InvalidFetchSize => 4i16,
            ErrorCode::LeaderNotAvailable => 5i16,
            ErrorCode::NotLeaderOrFollower => 6i16,
            ErrorCode::RequestTimedOut => 7i16,
            ErrorCode::BrokerNotAvailable => 8i16,
            ErrorCode::ReplicaNotAvailable => 9i16,
            ErrorCode::MessageTooLarge => 10i16,
            ErrorCode::StaleControllerEpoch => 11i16,
            ErrorCode::OffsetMetadataTooLarge => 12i16,
            ErrorCode::NetworkException => 13i16,
            ErrorCode::CoordinatorLoadInProgress => 14i16,
            ErrorCode::CoordinatorNotAvailable => 15i16,
            ErrorCode::NotCoordinator => 16i16,
            ErrorCode::InvalidTopicException => 17i16,
            ErrorCode::RecordListTooLarge => 18i16,
            ErrorCode::NotEnoughReplicas => 19i16,
            ErrorCode::NotEnoughReplicasAfterAppend => 20i16,
            ErrorCode::InvalidRequiredAcks => 21i16,
            ErrorCode::IllegalGeneration => 22i16,
            ErrorCode::InconsistentGroupProtocol => 23i16,
            ErrorCode::InvalidGroupId => 24i16,
            ErrorCode::UnknownMemberId => 25i16,
            ErrorCode::InvalidSessionTimeout => 26i16,
            ErrorCode::RebalanceInProgress => 27i16,
            ErrorCode::InvalidCommitOffsetSize => 28i16,
            ErrorCode::TopicAuthorizationFailed => 29i16,
            ErrorCode::GroupAuthorizationFailed => 30i16,
            ErrorCode::ClusterAuthorizationFailed => 31i16,
            ErrorCode::InvalidTimestamp => 32i16,
            ErrorCode::UnsupportedSaslMechanism => 33i16,
            ErrorCode::IllegalSaslState => 34i16,
            ErrorCode::UnsupportedVersion => 35i16,
            ErrorCode::TopicAlreadyExists => 36i16,
            ErrorCode::InvalidPartitions => 37i16,
            ErrorCode::InvalidReplicationFactor => 38i16,
            ErrorCode::InvalidReplicaAssignment => 39i16,
            ErrorCode::InvalidConfig => 40i16,
            ErrorCode::NotController => 41i16,
            ErrorCode::InvalidRequest => 42i16,
            ErrorCode::UnsupportedForMessageFormat => 43i16,
            ErrorCode::PolicyViolation => 44i16,
            ErrorCode::OutOfOrderSequenceNumber => 45i16,
            ErrorCode::DuplicateSequenceNumber => 46i16,
            ErrorCode::InvalidProducerEpoch => 47i16,
            ErrorCode::InvalidTxnState => 48i16,
            ErrorCode::InvalidProducerIdMapping => 49i16,
            ErrorCode::InvalidTransactionTimeout => 50i16,
            ErrorCode::ConcurrentTransactions => 51i16,
            ErrorCode::TransactionCoordinatorFenced => 52i16,
            ErrorCode::TransactionalIdAuthorizationFailed => 53i16,
            ErrorCode::SecurityDisabled => 54i16,
            ErrorCode::OperationNotAttempted => 55i16,
            ErrorCode::KafkaStorageError => 56i16,
            ErrorCode::LogDirNotFound => 57i16,
            ErrorCode::SaslAuthenticationFailed => 58i16,
            ErrorCode::UnknownProducerId => 59i16,
            ErrorCode::ReassignmentInProgress => 60i16,
            ErrorCode::DelegationTokenAuthDisabled => 61i16,
            ErrorCode::DelegationTokenNotFound => 62i16,
            ErrorCode::DelegationTokenOwnerMismatch => 63i16,
            ErrorCode::DelegationTokenRequestNotAllowed => 64i16,
            ErrorCode::DelegationTokenAuthorizationFailed => 65i16,
            ErrorCode::DelegationTokenExpired => 66i16,
            ErrorCode::InvalidPrincipalType => 67i16,
            ErrorCode::NonEmptyGroup => 68i16,
            ErrorCode::GroupIdNotFound => 69i16,
            ErrorCode::FetchSessionIdNotFound => 70i16,
            ErrorCode::InvalidFetchSessionEpoch => 71i16,
            ErrorCode::ListenerNotFound => 72i16,
            ErrorCode::TopicDeletionDisabled => 73i16,
            ErrorCode::FencedLeaderEpoch => 74i16,
            ErrorCode::UnknownLeaderEpoch => 75i16,
            ErrorCode::UnsupportedCompressionType => 76i16,
            ErrorCode::StaleBrokerEpoch => 77i16,
            ErrorCode::OffsetNotAvailable => 78i16,
            ErrorCode::MemberIdRequired => 79i16,
            ErrorCode::PreferredLeaderNotAvailable => 80i16,
            ErrorCode::GroupMaxSizeReached => 81i16,
            ErrorCode::FencedInstanceId => 82i16,
            ErrorCode::EligibleLeadersNotAvailable => 83i16,
            ErrorCode::ElectionNotNeeded => 84i16,
            ErrorCode::NoReassignmentInProgress => 85i16,
            ErrorCode::GroupSubscribedToTopic => 86i16,
            ErrorCode::InvalidRecord => 87i16,
            ErrorCode::UnstableOffsetCommit => 88i16,
            ErrorCode::ThrottlingQuotaExceeded => 89i16,
            ErrorCode::ProducerFenced => 90i16,
            ErrorCode::ResourceNotFound => 91i16,
            ErrorCode::DuplicateResource => 92i16,
            ErrorCode::UnacceptableCredential => 93i16,
            ErrorCode::InconsistentVoterSet => 94i16,
            ErrorCode::InvalidUpdateVersion => 95i16,
            ErrorCode::FeatureUpdateFailed => 96i16,
            ErrorCode::PrincipalDeserializationFailure => 97i16,
            ErrorCode::SnapshotNotFound => 98i16,
            ErrorCode::PositionOutOfRange => 99i16,
            ErrorCode::UnknownTopicId => 100i16,
            ErrorCode::DuplicateBrokerRegistration => 101i16,
            ErrorCode::BrokerIdNotRegistered => 102i16,
            ErrorCode::InconsistentTopicId => 103i16,
            ErrorCode::InconsistentClusterId => 104i16,
            ErrorCode::TransactionalIdNotFound => 105i16,
            ErrorCode::FetchSessionTopicIdError => 106i16,
            ErrorCode::IneligibleReplica => 107i16,
            ErrorCode::NewLeaderElected => 108i16,
            ErrorCode::OffsetMovedToTieredStorage => 109i16,
            ErrorCode::FencedMemberEpoch => 110i16,
            ErrorCode::UnreleasedInstanceId => 111i16,
            ErrorCode::UnsupportedAssignor => 112i16,
            ErrorCode::StaleMemberEpoch => 113i16,
            ErrorCode::MismatchedEndpointType => 114i16,
            ErrorCode::UnsupportedEndpointType => 115i16,
            ErrorCode::UnknownControllerId => 116i16,
            ErrorCode::UnknownSubscriptionId => 117i16,
            ErrorCode::TelemetryTooLarge => 118i16,
            ErrorCode::InvalidRegistration => 119i16,
            ErrorCode::TransactionAbortable => 120i16,
            ErrorCode::InvalidRecordState => 121i16,
            ErrorCode::ShareSessionNotFound => 122i16,
            ErrorCode::InvalidShareSessionEpoch => 123i16,
            ErrorCode::FencedStateEpoch => 124i16,
            ErrorCode::InvalidVoterKey => 125i16,
            ErrorCode::DuplicateVoter => 126i16,
            ErrorCode::VoterNotFound => 127i16,
            ErrorCode::InvalidRegularExpression => 128i16,
            ErrorCode::RebootstrapRequired => 129i16,
            ErrorCode::StreamsInvalidTopology => 130i16,
            ErrorCode::StreamsInvalidTopologyEpoch => 131i16,
            ErrorCode::StreamsTopologyFenced => 132i16,
            ErrorCode::ShareSessionLimitReached => 133i16,
            ErrorCode::Unknown(c) => c,
        }
    }

    /// The error code that a wire value stands for.
    pub open spec fn from_wire(c: i16) -> ErrorCode {
        match c {
            -1i16 => ErrorCode::UnknownServerError,
            0i16 => ErrorCode::NoError,
            1i16 => ErrorCode::OffsetOutOfRange,
            2i16 => ErrorCode::CorruptMessage,
            3i16 => ErrorCode::UnknownTopicOrPartition,
            4i16 => ErrorCode::InvalidFetchSize,
            5i16 => ErrorCode::LeaderNotAvailable,
            6i16 => ErrorCode::NotLeaderOrFollower,
            7i16 => ErrorCode::RequestTimedOut,
            8i16 => ErrorCode::BrokerNotAvailable,
            9i16 => ErrorCode::ReplicaNotAvailable,
            10i16 => ErrorCode::MessageTooLarge,
            11i16 => ErrorCode::StaleControllerEpoch,
            12i16 => ErrorCode::OffsetMetadataTooLarge,
            13i16 => ErrorCode::NetworkException,
            14i16 => ErrorCode::CoordinatorLoadInProgress,
            15i16 => ErrorCode::CoordinatorNotAvailable,
            16i16 => ErrorCode::NotCoordinator,
            17i16 => ErrorCode::InvalidTopicException,
            18i16 => ErrorCode::RecordListTooLarge,
            19i16 => ErrorCode::NotEnoughReplicas,
            20i16 => ErrorCode::NotEnoughReplicasAfterAppend,
            21i16 => ErrorCode::InvalidRequiredAcks,
            22i16 => ErrorCode::IllegalGeneration,
            23i16 => ErrorCode::InconsistentGroupProtocol,
            24i16 => ErrorCode::InvalidGroupId,
            25i16 => ErrorCode::UnknownMemberId,
            26i16 => ErrorCode::InvalidSessionTimeout,
            27i16 => ErrorCode::RebalanceInProgress,
            28i16 => ErrorCode::InvalidCommitOffsetSize,
            29i16 => ErrorCode::TopicAuthorizationFailed,
            30i16 => ErrorCode::GroupAuthorizationFailed,
            31i16 => ErrorCode::ClusterAuthorizationFailed,
            32i16 => ErrorCode::InvalidTimestamp,
            33i16 => ErrorCode::UnsupportedSaslMechanism,
            34i16 => ErrorCode::IllegalSaslState,
            35i16 => ErrorCode::UnsupportedVersion,
            36i16 => ErrorCode::TopicAlreadyExists,
            37i16 => ErrorCode::InvalidPartitions,
            38i16 => ErrorCode::InvalidReplicationFactor,
            39i16 => ErrorCode::InvalidReplicaAssignment,
            40i16 => ErrorCode::InvalidConfig,
            41i16 => ErrorCode::NotController,
            42i16 => ErrorCode::InvalidRequest,
            43i16 => ErrorCode::UnsupportedForMessageFormat,
            44i16 => ErrorCode::PolicyViolation,
            45i16 => ErrorCode::OutOfOrderSequenceNumber,
            46i16 => ErrorCode::DuplicateSequenceNumber,
            47i16 => ErrorCode::InvalidProducerEpoch,
            48i16 => ErrorCode::InvalidTxnState,
            49i16 => ErrorCode::InvalidProducerIdMapping,
            50i16 => ErrorCode::InvalidTransactionTimeout,
            51i16 => ErrorCode::ConcurrentTransactions,
            52i16 => ErrorCode::TransactionCoordinatorFenced,
            53i16 => ErrorCode::TransactionalIdAuthorizationFailed,
            54i16 => ErrorCode::SecurityDisabled,
            55i16 => ErrorCode::OperationNotAttempted,
            56i16 => ErrorCode::KafkaStorageError,
            57i16 => ErrorCode::LogDirNotFound,
            58i16 => ErrorCode::SaslAuthenticationFailed,
            59i16 => ErrorCode::UnknownProducerId,
            60i16 => ErrorCode::ReassignmentInProgress,
            61i16 => ErrorCode::DelegationTokenAuthDisabled,
            62i16 => ErrorCode::DelegationTokenNotFound,
            63i16 => ErrorCode::DelegationTokenOwnerMismatch,
            64i16 => ErrorCode::DelegationTokenRequestNotAllowed,
            65i16 => ErrorCode::DelegationTokenAuthorizationFailed,
            66i16 => ErrorCode::DelegationTokenExpired,
            67i16 => ErrorCode::InvalidPrincipalType,
            68i16 => ErrorCode::NonEmptyGroup,
            69i16 => ErrorCode::GroupIdNotFound,
            70i16 => ErrorCode::FetchSessionIdNotFound,
            71i16 => ErrorCode::InvalidFetchSessionEpoch,
            72i16 => ErrorCode::ListenerNotFound,
            73i16 => ErrorCode::TopicDeletionDisabled,
            74i16 => ErrorCode::FencedLeaderEpoch,
            75i16 => ErrorCode::UnknownLeaderEpoch,
            76i16 => ErrorCode::UnsupportedCompressionType,
            77i16 => ErrorCode::StaleBrokerEpoch,
            78i16 => ErrorCode::OffsetNotAvailable,
            79i16 => ErrorCode::MemberIdRequired,
            80i16 => ErrorCode::PreferredLeaderNotAvailable,
            81i16 => ErrorCode::GroupMaxSizeReached,
            82i16 => ErrorCode::FencedInstanceId,
            83i16 => ErrorCode::EligibleLeadersNotAvailable,
            84i16 => ErrorCode::ElectionNotNeeded,
            85i16 => ErrorCode::NoReassignmentInProgress,
            86i16 => ErrorCode::GroupSubscribedToTopic,
            87i16 => ErrorCode::InvalidRecord,
            88i16 => ErrorCode::UnstableOffsetCommit,
            89i16 => ErrorCode::ThrottlingQuotaExceeded,
            90i16 => ErrorCode::ProducerFenced,
            91i16 => ErrorCode::ResourceNotFound,
            92i16 => ErrorCode::DuplicateResource,
            93i16 => ErrorCode::UnacceptableCredential,
            94i16 => ErrorCode::InconsistentVoterSet,
            95i16 => ErrorCode::InvalidUpdateVersion,
            96i16 => ErrorCode::FeatureUpdateFailed,
            97i16 => ErrorCode::PrincipalDeserializationFailure,
            98i16 => ErrorCode::SnapshotNotFound,
            99i16 => ErrorCode::PositionOutOfRange,
            100i16 => ErrorCode::UnknownTopicId,
            101i16 => ErrorCode::DuplicateBrokerRegistration,
            102i16 => ErrorCode::BrokerIdNotRegistered,
            103i16 => ErrorCode::InconsistentTopicId,
            104i16 => ErrorCode::InconsistentClusterId,
            105i16 => ErrorCode::TransactionalIdNotFound,
            106i16 => ErrorCode::FetchSessionTopicIdError,
            107i16 => ErrorCode::IneligibleReplica,
            108i16 => ErrorCode::NewLeaderElected,
            109i16 => ErrorCode::OffsetMovedToTieredStorage,
            110i16 => ErrorCode::FencedMemberEpoch,
            111i16 => ErrorCode::UnreleasedInstanceId,
            112i16 => ErrorCode::UnsupportedAssignor,
            113i16 => ErrorCode::StaleMemberEpoch,
            114i16 => ErrorCode::MismatchedEndpointType,
            115i16 => ErrorCode::UnsupportedEndpointType,
            116i16 => ErrorCode::UnknownControllerId,
            117i16 => ErrorCode::UnknownSubscriptionId,
            118i16 => ErrorCode::TelemetryTooLarge,
            119i16 => ErrorCode::InvalidRegistration,
            120i16 => ErrorCode::TransactionAbortable,
            121i16 => ErrorCode::InvalidRecordState,
            122i16 => ErrorCode::ShareSessionNotFound,
            123i16 => ErrorCode::InvalidShareSessionEpoch,
            124i16 => ErrorCode::FencedStateEpoch,
            125i16 => ErrorCode::InvalidVoterKey,
            126i16 => ErrorCode::DuplicateVoter,
            127i16 => ErrorCode::VoterNotFound,
            128i16 => ErrorCode::InvalidRegularExpression,
            129i16 => ErrorCode::RebootstrapRequired,
            130i16 => ErrorCode::StreamsInvalidTopology,
            131i16 => ErrorCode::StreamsInvalidTopologyEpoch,
            132i16 => ErrorCode::StreamsTopologyFenced,
            133i16 => ErrorCode::ShareSessionLimitReached,
            _ => ErrorCode::Unknown(c),
        }
    }

    /// Whether the operation that failed with this error may be retried.
    pub open spec fn retriable(self) -> bool {
        match self {
            ErrorCode::CorruptMessage => true,
            ErrorCode::UnknownTopicOrPartition => true,
            ErrorCode::LeaderNotAvailable => true,
            ErrorCode::NotLeaderOrFollower => true,
            ErrorCode::RequestTimedOut => true,
            ErrorCode::ReplicaNotAvailable => true,
            ErrorCode::StaleControllerEpoch => true,
            ErrorCode::NetworkException => true,
            ErrorCode::CoordinatorLoadInProgress => true,
            ErrorCode::CoordinatorNotAvailable => true,
            ErrorCode::NotCoordinator => true,
            ErrorCode::NotEnoughReplicas => true,
            ErrorCode::NotEnoughReplicasAfterAppend => true,
            ErrorCode::RebalanceInProgress => true,
            ErrorCode::NotController => true,
            ErrorCode::FetchSessionIdNotFound => true,
            ErrorCode::InvalidFetchSessionEpoch => true,
            ErrorCode::OffsetNotAvailable => true,
            ErrorCode::PreferredLeaderNotAvailable => true,
            ErrorCode::EligibleLeadersNotAvailable => true,
            ErrorCode::ElectionNotNeeded => true,
            ErrorCode::NoReassignmentInProgress => true,
            ErrorCode::UnstableOffsetCommit => true,
            ErrorCode::ThrottlingQuotaExceeded => true,
            ErrorCode::UnknownTopicId => true,
            ErrorCode::FetchSessionTopicIdError => true,
            ErrorCode::NewLeaderElected => true,
            ErrorCode::OffsetMovedToTieredStorage => true,
            ErrorCode::FencedMemberEpoch => true,
            ErrorCode::UnreleasedInstanceId => true,
            ErrorCode::StaleMemberEpoch => true,
            ErrorCode::ShareSessionNotFound => true,
            ErrorCode::InvalidShareSessionEpoch => true,
            ErrorCode::RebootstrapRequired => true,
            _ => false,
        }
    }

    /// The message that describes the error code.
    pub open spec fn message(self) -> Seq<char> {
        match self {
            ErrorCode::UnknownServerError => "The server experienced an unexpected error when processing the request."@,
            ErrorCode::NoError => "NONE"@,
            ErrorCode::OffsetOutOfRange => "The requested offset is not within the range of offsets maintained by the server."@,
            ErrorCode::CorruptMessage => "This message has failed its CRC checksum, exceeds the valid size, has a null key for a compacted topic, or is otherwise corrupt."@,
            ErrorCode::UnknownTopicOrPartition => "This server does not host this topic-partition."@,
            ErrorCode::InvalidFetchSize => "The requested fetch size is invalid."@,
            ErrorCode::LeaderNotAvailable => "There is no leader for this topic-partition as we are in the middle of a leadership election."@,
            ErrorCode::NotLeaderOrFollower => "For requests intended only for the leader, this error indicates that the broker is not the current leader. For requests intended for any replica, this error indicates that the broker is not a replica of the topic partition."@,
            ErrorCode::RequestTimedOut => "The request timed out."@,
            ErrorCode::BrokerNotAvailable => "The broker is not available."@,
            ErrorCode::ReplicaNotAvailable => "The replica is not available for the requested topic-partition. Produce/Fetch requests and other requests intended only for the leader or follower return NOT_LEADER_OR_FOLLOWER if the broker is not a replica of the topic-partition."@,
            ErrorCode::MessageTooLarge => "The request included a message larger than the max message size the server will accept."@,
            ErrorCode::StaleControllerEpoch => "The controller moved to another broker."@,
            ErrorCode::OffsetMetadataTooLarge => "The metadata field of the offset request was too large."@,
            ErrorCode::NetworkException => "The server disconnected before a response was received."@,
            ErrorCode::CoordinatorLoadInProgress => "The coordinator is loading and hence can't process requests."@,
            ErrorCode::CoordinatorNotAvailable => "The coordinator is not available."@,
            ErrorCode::NotCoordinator => "This is not the correct coordinator."@,
            ErrorCode::InvalidTopicException => "The request attempted to perform an operation on an invalid topic."@,
            ErrorCode::RecordListTooLarge => "The request included message batch larger than the configured segment size on the server."@,
            ErrorCode::NotEnoughReplicas => "Messages are rejected since there are fewer in-sync replicas than required."@,
            ErrorCode::NotEnoughReplicasAfterAppend => "Messages are written to the log, but to fewer in-sync replicas than required."@,
            ErrorCode::InvalidRequiredAcks => "Produce request specified an invalid value for required acks."@,
            ErrorCode::IllegalGeneration => "Specified group generation id is not valid."@,
            ErrorCode::InconsistentGroupProtocol => "The group member's supported protocols are incompatible with those of existing members or first group member tried to join with empty protocol type or empty protocol list."@,
            ErrorCode::InvalidGroupId => "The group id is invalid."@,
            ErrorCode::UnknownMemberId => "The coordinator is not aware of this member."@,
            ErrorCode::InvalidSessionTimeout => "The session timeout is not within the range allowed by the broker (as configured by group.min.session.timeout.ms and group.max.session.timeout.ms)."@,
            ErrorCode::RebalanceInProgress => "The group is rebalancing, so a rejoin is needed."@,
            ErrorCode::InvalidCommitOffsetSize => "The committing offset data size is not valid."@,
            ErrorCode::TopicAuthorizationFailed => "Topic authorization failed."@,
            ErrorCode::GroupAuthorizationFailed => "Group authorization failed."@,
            ErrorCode::ClusterAuthorizationFailed => "Cluster authorization failed."@,
            ErrorCode::InvalidTimestamp => "The timestamp of the message is out of acceptable range."@,
            ErrorCode::UnsupportedSaslMechanism => "The broker does not support the requested SASL mechanism."@,
            ErrorCode::IllegalSaslState => "Request is not valid given the current SASL state."@,
            ErrorCode::UnsupportedVersion => "The version of API is not supported."@,
            ErrorCode::TopicAlreadyExists => "Topic with this name already exists."@,
            ErrorCode::InvalidPartitions => "Number of partitions is below 1."@,
            ErrorCode::InvalidReplicationFactor => "Replication factor is below 1 or larger than the number of available brokers."@,
            ErrorCode::InvalidReplicaAssignment => "Replica assignment is invalid."@,
            ErrorCode::InvalidConfig => "Configuration is invalid."@,
            ErrorCode::NotController => "This is not the correct controller for this cluster."@,
            ErrorCode::InvalidRequest => "This most likely occurs because of a request being malformed by the client library or the message was sent to an incompatible broker. See the broker logs for more details."@,
            ErrorCode::UnsupportedForMessageFormat => "The message format version on the broker does not support the request."@,
            ErrorCode::PolicyViolation => "Request parameters do not satisfy the configured policy."@,
            ErrorCode::OutOfOrderSequenceNumber => "The broker received an out of order sequence number."@,
            ErrorCode::DuplicateSequenceNumber => "The broker received a duplicate sequence number."@,
            ErrorCode::InvalidProducerEpoch => "Producer attempted to produce with an old epoch."@,
            ErrorCode::InvalidTxnState => "The producer attempted a transactional operation in an invalid state."@,
            ErrorCode::InvalidProducerIdMapping => "The producer attempted to use a producer id which is not currently assigned to its transactional id."@,
            ErrorCode::InvalidTransactionTimeout => "The transaction timeout is larger than the maximum value allowed by the broker (as configured by transaction.max.timeout.ms)."@,
            ErrorCode::ConcurrentTransactions => "The producer attempted to update a transaction while another concurrent operation on the same transaction was ongoing."@,
            ErrorCode::TransactionCoordinatorFenced => "Indicates that the transaction coordinator sending a WriteTxnMarker is no longer the current coordinator for a given producer."@,
            ErrorCode::TransactionalIdAuthorizationFailed => "Transactional Id authorization failed."@,
            ErrorCode::SecurityDisabled => "Security features are disabled."@,
            ErrorCode::OperationNotAttempted => "The broker did not attempt to execute this operation. This may happen for batched RPCs where some operations in the batch failed, causing the broker to respond without trying the rest."@,
            ErrorCode::KafkaStorageError => "Disk error when trying to access log file on the disk."@,
            ErrorCode::LogDirNotFound => "The user-specified log directory is not found in the broker config."@,
            ErrorCode::SaslAuthenticationFailed => "SASL Authentication failed."@,
            ErrorCode::UnknownProducerId => "This exception is raised by the broker if it could not locate the producer metadata associated with the producerId in question. This could happen if, for instance, the producer's records were deleted because their retention time had elapsed. Once the last records of the producerId are removed, the producer's metadata is removed from the broker, and future appends by the producer will return this exception."@,
            ErrorCode::ReassignmentInProgress => "A partition reassignment is in progress."@,
            ErrorCode::DelegationTokenAuthDisabled => "Delegation Token feature is not enabled."@,
            ErrorCode::DelegationTokenNotFound => "Delegation Token is not found on server."@,
            ErrorCode::DelegationTokenOwnerMismatch => "Specified Principal is not valid Owner/Renewer."@,
            ErrorCode::DelegationTokenRequestNotAllowed => "Delegation Token requests are not allowed on PLAINTEXT/1-way SSL channels and on delegation token authenticated channels."@,
            ErrorCode::DelegationTokenAuthorizationFailed => "Delegation Token authorization failed."@,
            ErrorCode::DelegationTokenExpired => "Delegation Token is expired."@,
            ErrorCode::InvalidPrincipalType => "Supplied principalType is not supported."@,
            ErrorCode::NonEmptyGroup => "The group is not empty."@,
            ErrorCode::GroupIdNotFound => "The group id does not exist."@,
            ErrorCode::FetchSessionIdNotFound => "The fetch session ID was not found."@,
            ErrorCode::InvalidFetchSessionEpoch => "The fetch session epoch is invalid."@,
            ErrorCode::ListenerNotFound => "There is no listener on the leader broker that matches the listener on which metadata request was processed."@,
            ErrorCode::TopicDeletionDisabled => "Topic deletion is disabled."@,
            ErrorCode::FencedLeaderEpoch => "The leader epoch in the request is older than the epoch on the broker."@,
            ErrorCode::UnknownLeaderEpoch => "The leader epoch in the request is newer than the epoch on the broker."@,
            ErrorCode::UnsupportedCompressionType => "The requesting client does not support the compression type of given partition."@,
            ErrorCode::StaleBrokerEpoch => "Broker epoch has changed."@,
            ErrorCode::OffsetNotAvailable => "The leader high watermark has not caught up from a recent leader election so the offsets cannot be guaranteed to be monotonically increasing."@,
            ErrorCode::MemberIdRequired => "The group member needs to have a valid member id before actually entering a consumer group."@,
            ErrorCode::PreferredLeaderNotAvailable => "The preferred leader was not available."@,
            ErrorCode::GroupMaxSizeReached => "The group has reached its maximum size."@,
            ErrorCode::FencedInstanceId => "The broker rejected this static consumer since another consumer with the same group.instance.id has registered with a different member.id."@,
            ErrorCode::EligibleLeadersNotAvailable => "Eligible topic partition leaders are not available."@,
            ErrorCode::ElectionNotNeeded => "Leader election not needed for topic partition."@,
            ErrorCode::NoReassignmentInProgress => "No partition reassignment is in progress."@,
            ErrorCode::GroupSubscribedToTopic => "Deleting offsets of a topic is forbidden while the consumer group is actively subscribed to it."@,
            ErrorCode::InvalidRecord => "This record has failed the validation on broker and hence will be rejected."@,
            ErrorCode::UnstableOffsetCommit => "There are unstable offsets that need to be cleared."@,
            ErrorCode::ThrottlingQuotaExceeded => "The throttling quota has been exceeded."@,
            ErrorCode::ProducerFenced => "There is a newer producer with the same transactionalId which fences the current one."@,
            ErrorCode::ResourceNotFound => "A request illegally referred to a resource that does not exist."@,
            ErrorCode::DuplicateResource => "A request illegally referred to the same resource twice."@,
            ErrorCode::UnacceptableCredential => "Requested credential would not meet criteria for acceptability."@,
            ErrorCode::InconsistentVoterSet => "Indicates that the either the sender or recipient of a voter-only request is not one of the expected voters."@,
            ErrorCode::InvalidUpdateVersion => "The given update version was invalid."@,
            ErrorCode::FeatureUpdateFailed => "Unable to update finalized features due to an unexpected server error."@,
            ErrorCode::PrincipalDeserializationFailure => "Request principal deserialization failed during forwarding. This indicates an internal error on the broker cluster security setup."@,
            ErrorCode::SnapshotNotFound => "Requested snapshot was not found."@,
            ErrorCode::PositionOutOfRange => "Requested position is not greater than or equal to zero, and less than the size of the snapshot."@,
            ErrorCode::UnknownTopicId => "This server does not host this topic ID."@,
            ErrorCode::DuplicateBrokerRegistration => "This broker ID is already in use."@,
            ErrorCode::BrokerIdNotRegistered => "The given broker ID was not registered."@,
            ErrorCode::InconsistentTopicId => "The log's topic ID did not match the topic ID in the request."@,
            ErrorCode::InconsistentClusterId => "The clusterId in the request does not match that found on the server."@,
            ErrorCode::TransactionalIdNotFound => "The transactionalId could not be found."@,
            ErrorCode::FetchSessionTopicIdError => "The fetch session encountered inconsistent topic ID usage."@,
            ErrorCode::IneligibleReplica => "The new ISR contains at least one ineligible replica."@,
            ErrorCode::NewLeaderElected => "The AlterPartition request successfully updated the partition state but the leader has changed."@,
            ErrorCode::OffsetMovedToTieredStorage => "The requested offset is moved to tiered storage."@,
            ErrorCode::FencedMemberEpoch => "The member epoch is fenced by the group coordinator. The member must abandon all its partitions and rejoin."@,
            ErrorCode::UnreleasedInstanceId => "The instance ID is still used by another member in the consumer group. That member must leave first."@,
            ErrorCode::UnsupportedAssignor => "The assignor or its version range is not supported by the consumer group."@,
            ErrorCode::StaleMemberEpoch => "The member epoch is stale. The member must retry after receiving its updated member epoch via the ConsumerGroupHeartbeat API."@,
            ErrorCode::MismatchedEndpointType => "The request was sent to an endpoint of the wrong type."@,
            ErrorCode::UnsupportedEndpointType => "This endpoint type is not supported yet."@,
            ErrorCode::UnknownControllerId => "This controller ID is not known."@,
            ErrorCode::UnknownSubscriptionId => "Client sent a push telemetry request with an invalid or outdated subscription ID."@,
            ErrorCode::TelemetryTooLarge => "Client sent a push telemetry request larger than the maximum size the broker will accept."@,
            ErrorCode::InvalidRegistration => "The controller has considered the broker registration to be invalid."@,
            ErrorCode::TransactionAbortable => "The server encountered an error with the transaction. The client can abort the transaction to continue using this transactional ID."@,
            ErrorCode::InvalidRecordState => "The record state is invalid. The acknowledgement of delivery could not be completed."@,
            ErrorCode::ShareSessionNotFound => "The share session was not found."@,
            ErrorCode::InvalidShareSessionEpoch => "The share session epoch is invalid."@,
            ErrorCode::FencedStateEpoch => "The share coordinator rejected the request because the share-group state epoch did not match."@,
            ErrorCode::InvalidVoterKey => "The voter key doesn't match the receiving replica's key."@,
            ErrorCode::DuplicateVoter => "The voter is already part of the set of voters."@,
            ErrorCode::VoterNotFound => "The voter is not part of the set of voters."@,
            ErrorCode::InvalidRegularExpression => "The regular expression is not valid."@,
            ErrorCode::RebootstrapRequired => "Client metadata is stale. The client should rebootstrap to obtain new metadata."@,
            ErrorCode::StreamsInvalidTopology => "The supplied topology is invalid."@,
            ErrorCode::StreamsInvalidTopologyEpoch => "The supplied topology epoch is invalid."@,
            ErrorCode::StreamsTopologyFenced => "The supplied topology epoch is outdated."@,
            ErrorCode::ShareSessionLimitReached => "The limit of share sessions has been reached."@,
            ErrorCode::Unknown(c) => "Unknown error code: "@ + decimal_text(c as int),
        }
    }

    /// Whether the value is the name that `from` gives its code: a known code
    /// held as `Unknown` is not.
    pub open spec fn is_canonical(self) -> bool {
        match self {
            ErrorCode::Unknown(c) => ErrorCode::from_wire(c) is Unknown,
            _ => true,
        }
    }

    /// The `i16` wire value of this error code.
    pub fn code(&self) -> (r: i16)
        ensures
            r == self.wire_value(),
    {
        match self {
            ErrorCode::UnknownServerError => -1,
            ErrorCode::NoError => 0,
            ErrorCode::OffsetOutOfRange => 1,
            ErrorCode::CorruptMessage => 2,
            ErrorCode::UnknownTopicOrPartition => 3,
            ErrorCode::InvalidFetchSize => 4,
            ErrorCode::LeaderNotAvailable => 5,
            ErrorCode::NotLeaderOrFollower => 6,
            ErrorCode::RequestTimedOut => 7,
            ErrorCode::BrokerNotAvailable => 8,
            ErrorCode::ReplicaNotAvailable => 9,
            ErrorCode::MessageTooLarge => 10,
            ErrorCode::StaleControllerEpoch => 11,
            ErrorCode::OffsetMetadataTooLarge => 12,
            ErrorCode::NetworkException => 13,
            ErrorCode::CoordinatorLoadInProgress => 14,
            ErrorCode::CoordinatorNotAvailable => 15,
            ErrorCode::NotCoordinator => 16,
            ErrorCode::InvalidTopicException => 17,
            ErrorCode::RecordListTooLarge => 18,
            ErrorCode::NotEnoughReplicas => 19,
            ErrorCode::NotEnoughReplicasAfterAppend => 20,
            ErrorCode::InvalidRequiredAcks => 21,
            ErrorCode::IllegalGeneration => 22,
            ErrorCode::InconsistentGroupProtocol => 23,
            ErrorCode::InvalidGroupId => 24,
            ErrorCode::UnknownMemberId => 25,
            ErrorCode::InvalidSessionTimeout => 26,
            ErrorCode::RebalanceInProgress => 27,
            ErrorCode::InvalidCommitOffsetSize => 28,
            ErrorCode::TopicAuthorizationFailed => 29,
            ErrorCode::GroupAuthorizationFailed => 30,
            ErrorCode::ClusterAuthorizationFailed => 31,
            ErrorCode::InvalidTimestamp => 32,
            ErrorCode::UnsupportedSaslMechanism => 33,
            ErrorCode::IllegalSaslState => 34,
            ErrorCode::UnsupportedVersion => 35,
            ErrorCode::TopicAlreadyExists => 36,
            ErrorCode::InvalidPartitions => 37,
            ErrorCode::InvalidReplicationFactor => 38,
            ErrorCode::InvalidReplicaAssignment => 39,
            ErrorCode::InvalidConfig => 40,
            ErrorCode::NotController => 41,
            ErrorCode::InvalidRequest => 42,
            ErrorCode::UnsupportedForMessageFormat => 43,
            ErrorCode::PolicyViolation => 44,
            ErrorCode::OutOfOrderSequenceNumber => 45,
            ErrorCode::DuplicateSequenceNumber => 46,
            ErrorCode::InvalidProducerEpoch => 47,
            ErrorCode::InvalidTxnState => 48,
            ErrorCode::InvalidProducerIdMapping => 49,
            ErrorCode::InvalidTransactionTimeout => 50,
            ErrorCode::ConcurrentTransactions => 51,
            ErrorCode::TransactionCoordinatorFenced => 52,
            ErrorCode::TransactionalIdAuthorizationFailed => 53,
            ErrorCode::SecurityDisabled => 54,
            ErrorCode::OperationNotAttempted => 55,
            ErrorCode::KafkaStorageError => 56,
            ErrorCode::LogDirNotFound => 57,
            ErrorCode::SaslAuthenticationFailed => 58,
            ErrorCode::UnknownProducerId => 59,
            ErrorCode::ReassignmentInProgress => 60,
            ErrorCode::DelegationTokenAuthDisabled => 61,
            ErrorCode::DelegationTokenNotFound => 62,
            ErrorCode::DelegationTokenOwnerMismatch => 63,
            ErrorCode::DelegationTokenRequestNotAllowed => 64,
            ErrorCode::DelegationTokenAuthorizationFailed => 65,
            ErrorCode::DelegationTokenExpired => 66,
            ErrorCode::InvalidPrincipalType => 67,
            ErrorCode::NonEmptyGroup => 68,
            ErrorCode::GroupIdNotFound => 69,
            ErrorCode::FetchSessionIdNotFound => 70,
            ErrorCode::InvalidFetchSessionEpoch => 71,
            ErrorCode::ListenerNotFound => 72,
            ErrorCode::TopicDeletionDisabled => 73,
            ErrorCode::FencedLeaderEpoch => 74,
            ErrorCode::UnknownLeaderEpoch => 75,
            ErrorCode::UnsupportedCompressionType => 76,
            ErrorCode::StaleBrokerEpoch => 77,
            ErrorCode::OffsetNotAvailable => 78,
            ErrorCode::MemberIdRequired => 79,
            ErrorCode::PreferredLeaderNotAvailable => 80,
            ErrorCode::GroupMaxSizeReached => 81,
            ErrorCode::FencedInstanceId => 82,
            ErrorCode::EligibleLeadersNotAvailable => 83,
            ErrorCode::ElectionNotNeeded => 84,
            ErrorCode::NoReassignmentInProgress => 85,
            ErrorCode::GroupSubscribedToTopic => 86,
            ErrorCode::InvalidRecord => 87,
            ErrorCode::UnstableOffsetCommit => 88,
            ErrorCode::ThrottlingQuotaExceeded => 89,
            ErrorCode::ProducerFenced => 90,
            ErrorCode::ResourceNotFound => 91,
            ErrorCode::DuplicateResource => 92,
            ErrorCode::UnacceptableCredential => 93,
            ErrorCode::InconsistentVoterSet => 94,
            ErrorCode::InvalidUpdateVersion => 95,
            ErrorCode::FeatureUpdateFailed => 96,
            ErrorCode::PrincipalDeserializationFailure => 97,
            ErrorCode::SnapshotNotFound => 98,
            ErrorCode::PositionOutOfRange => 99,
            ErrorCode::UnknownTopicId => 100,
            ErrorCode::DuplicateBrokerRegistration => 101,
            ErrorCode::BrokerIdNotRegistered => 102,
            ErrorCode::InconsistentTopicId => 103,
            ErrorCode::InconsistentClusterId => 104,
            ErrorCode::TransactionalIdNotFound => 105,
            ErrorCode::FetchSessionTopicIdError => 106,
            ErrorCode::IneligibleReplica => 107,
            ErrorCode::NewLeaderElected => 108,
            ErrorCode::OffsetMovedToTieredStorage => 109,
            ErrorCode::FencedMemberEpoch => 110,
            ErrorCode::UnreleasedInstanceId => 111,
            ErrorCode::UnsupportedAssignor => 112,
            ErrorCode::StaleMemberEpoch => 113,
            ErrorCode::MismatchedEndpointType => 114,
            ErrorCode::UnsupportedEndpointType => 115,
            ErrorCode::UnknownControllerId => 116,
            ErrorCode::UnknownSubscriptionId => 117,
            ErrorCode::TelemetryTooLarge => 118,
            ErrorCode::InvalidRegistration => 119,
            ErrorCode::TransactionAbortable => 120,
            ErrorCode::InvalidRecordState => 121,
            ErrorCode::ShareSessionNotFound => 122,
            ErrorCode::InvalidShareSessionEpoch => 123,
            ErrorCode::FencedStateEpoch => 124,
            ErrorCode::InvalidVoterKey => 125,
            ErrorCode::DuplicateVoter => 126,
            ErrorCode::VoterNotFound => 127,
            ErrorCode::InvalidRegularExpression => 128,
            ErrorCode::RebootstrapRequired => 129,
            ErrorCode::StreamsInvalidTopology => 130,
            ErrorCode::StreamsInvalidTopologyEpoch => 131,
            ErrorCode::StreamsTopologyFenced => 132,
            ErrorCode::ShareSessionLimitReached => 133,
            ErrorCode::Unknown(c) => *c,
        }
    }

    /// Whether the operation that produced this error can be retried; an
    /// unknown code cannot.
    pub fn is_retriable(&self) -> (r: bool)
        ensures
            r == self.retriable(),
    {
        match self {
            ErrorCode::CorruptMessage => true,
            ErrorCode::UnknownTopicOrPartition => true,
            ErrorCode::LeaderNotAvailable => true,
            ErrorCode::NotLeaderOrFollower => true,
            ErrorCode::RequestTimedOut => true,
            ErrorCode::ReplicaNotAvailable => true,
            ErrorCode::StaleControllerEpoch => true,
            ErrorCode::NetworkException => true,
            ErrorCode::CoordinatorLoadInProgress => true,
            ErrorCode::CoordinatorNotAvailable => true,
            ErrorCode::NotCoordinator => true,
            ErrorCode::NotEnoughReplicas => true,
            ErrorCode::NotEnoughReplicasAfterAppend => true,
            ErrorCode::RebalanceInProgress => true,
            ErrorCode::NotController => true,
            ErrorCode::FetchSessionIdNotFound => true,
            ErrorCode::InvalidFetchSessionEpoch => true,
            ErrorCode::OffsetNotAvailable => true,
            ErrorCode::PreferredLeaderNotAvailable => true,
            ErrorCode::EligibleLeadersNotAvailable => true,
            ErrorCode::ElectionNotNeeded => true,
            ErrorCode::NoReassignmentInProgress => true,
            ErrorCode::UnstableOffsetCommit => true,
            ErrorCode::ThrottlingQuotaExceeded => true,
            ErrorCode::UnknownTopicId => true,
            ErrorCode::FetchSessionTopicIdError => true,
            ErrorCode::NewLeaderElected => true,
            ErrorCode::OffsetMovedToTieredStorage => true,
            ErrorCode::FencedMemberEpoch => true,
            ErrorCode::UnreleasedInstanceId => true,
            ErrorCode::StaleMemberEpoch => true,
            ErrorCode::ShareSessionNotFound => true,
            ErrorCode::InvalidShareSessionEpoch => true,
            ErrorCode::RebootstrapRequired => true,
            _ => false,
        }
    }

    /// Whether this is an error: every code but `NoError` is.
    pub fn is_error(&self) -> (r: bool)
        ensures
            r == !(*self is NoError),
    {
        !matches!(self, ErrorCode::NoError)
    }

    /// The human-readable message of this error code.
    pub fn to_string(&self) -> (r: String)
        ensures
            r@ == self.message(),
    {
        match self {
            ErrorCode::UnknownServerError => String::from_str("The server experienced an unexpected error when processing the request."),
            ErrorCode::NoError => String::from_str("NONE"),
            ErrorCode::OffsetOutOfRange => String::from_str("The requested offset is not within the range of offsets maintained by the server."),
            ErrorCode::CorruptMessage => String::from_str("This message has failed its CRC checksum, exceeds the valid size, has a null key for a compacted topic, or is otherwise corrupt."),
            ErrorCode::UnknownTopicOrPartition => String::from_str("This server does not host this topic-partition."),
            ErrorCode::InvalidFetchSize => String::from_str("The requested fetch size is invalid."),
            ErrorCode::LeaderNotAvailable => String::from_str("There is no leader for this topic-partition as we are in the middle of a leadership election."),
            ErrorCode::NotLeaderOrFollower => String::from_str("For requests intended only for the leader, this error indicates that the broker is not the current leader. For requests intended for any replica, this error indicates that the broker is not a replica of the topic partition."),
            ErrorCode::RequestTimedOut => String::from_str("The request timed out."),
            ErrorCode::BrokerNotAvailable => String::from_str("The broker is not available."),
            ErrorCode::ReplicaNotAvailable => String::from_str("The replica is not available for the requested topic-partition. Produce/Fetch requests and other requests intended only for the leader or follower return NOT_LEADER_OR_FOLLOWER if the broker is not a replica of the topic-partition."),
            ErrorCode::MessageTooLarge => String::from_str("The request included a message larger than the max message size the server will accept."),
            ErrorCode::StaleControllerEpoch => String::from_str("The controller moved to another broker."),
            ErrorCode::OffsetMetadataTooLarge => String::from_str("The metadata field of the offset request was too large."),
            ErrorCode::NetworkException => String::from_str("The server disconnected before a response was received."),
            ErrorCode::CoordinatorLoadInProgress => String::from_str("The coordinator is loading and hence can't process requests."),
            ErrorCode::CoordinatorNotAvailable => String::from_str("The coordinator is not available."),
            ErrorCode::NotCoordinator => String::from_str("This is not the correct coordinator."),
            ErrorCode::InvalidTopicException => String::from_str("The request attempted to perform an operation on an invalid topic."),
            ErrorCode::RecordListTooLarge => String::from_str("The request included message batch larger than the configured segment size on the server."),
            ErrorCode::NotEnoughReplicas => String::from_str("Messages are rejected since there are fewer in-sync replicas than required."),
            ErrorCode::NotEnoughReplicasAfterAppend => String::from_str("Messages are written to the log, but to fewer in-sync replicas than required."),
            ErrorCode::InvalidRequiredAcks => String::from_str("Produce request specified an invalid value for required acks."),
            ErrorCode::IllegalGeneration => String::from_str("Specified group generation id is not valid."),
            ErrorCode::InconsistentGroupProtocol => String::from_str("The group member's supported protocols are incompatible with those of existing members or first group member tried to join with empty protocol type or empty protocol list."),
            ErrorCode::InvalidGroupId => String::from_str("The group id is invalid."),
            ErrorCode::UnknownMemberId => String::from_str("The coordinator is not aware of this member."),
            ErrorCode::InvalidSessionTimeout => String::from_str("The session timeout is not within the range allowed by the broker (as configured by group.min.session.timeout.ms and group.max.session.timeout.ms)."),
            ErrorCode::RebalanceInProgress => String::from_str("The group is rebalancing, so a rejoin is needed."),
            ErrorCode::InvalidCommitOffsetSize => String::from_str("The committing offset data size is not valid."),
            ErrorCode::TopicAuthorizationFailed => String::from_str("Topic authorization failed."),
            ErrorCode::GroupAuthorizationFailed => String::from_str("Group authorization failed."),
            ErrorCode::ClusterAuthorizationFailed => String::from_str("Cluster authorization failed."),
            ErrorCode::InvalidTimestamp => String::from_str("The timestamp of the message is out of acceptable range."),
            ErrorCode::UnsupportedSaslMechanism => String::from_str("The broker does not support the requested SASL mechanism."),
            ErrorCode::IllegalSaslState => String::from_str("Request is not valid given the current SASL state."),
            ErrorCode::UnsupportedVersion => String::from_str("The version of API is not supported."),
            ErrorCode::TopicAlreadyExists => String::from_str("Topic with this name already exists."),
            ErrorCode::InvalidPartitions => String::from_str("Number of partitions is below 1."),
            ErrorCode::InvalidReplicationFactor => String::from_str("Replication factor is below 1 or larger than the number of available brokers."),
            ErrorCode::InvalidReplicaAssignment => String::from_str("Replica assignment is invalid."),
            ErrorCode::InvalidConfig => String::from_str("Configuration is invalid."),
            ErrorCode::NotController => String::from_str("This is not the correct controller for this cluster."),
            ErrorCode::InvalidRequest => String::from_str("This most likely occurs because of a request being malformed by the client library or the message was sent to an incompatible broker. See the broker logs for more details."),
            ErrorCode::UnsupportedForMessageFormat => String::from_str("The message format version on the broker does not support the request."),
            ErrorCode::PolicyViolation => String::from_str("Request parameters do not satisfy the configured policy."),
            ErrorCode::OutOfOrderSequenceNumber => String::from_str("The broker received an out of order sequence number."),
            ErrorCode::DuplicateSequenceNumber => String::from_str("The broker received a duplicate sequence number."),
            ErrorCode::InvalidProducerEpoch => String::from_str("Producer attempted to produce with an old epoch."),
            ErrorCode::InvalidTxnState => String::from_str("The producer attempted a transactional operation in an invalid state."),
            ErrorCode::InvalidProducerIdMapping => String::from_str("The producer attempted to use a producer id which is not currently assigned to its transactional id."),
            ErrorCode::InvalidTransactionTimeout => String::from_str("The transaction timeout is larger than the maximum value allowed by the broker (as configured by transaction.max.timeout.ms)."),
            ErrorCode::ConcurrentTransactions => String::from_str("The producer attempted to update a transaction while another concurrent operation on the same transaction was ongoing."),
            ErrorCode::TransactionCoordinatorFenced => String::from_str("Indicates that the transaction coordinator sending a WriteTxnMarker is no longer the current coordinator for a given producer."),
            ErrorCode::TransactionalIdAuthorizationFailed => String::from_str("Transactional Id authorization failed."),
            ErrorCode::SecurityDisabled => String::from_str("Security features are disabled."),
            ErrorCode::OperationNotAttempted => String::from_str("The broker did not attempt to execute this operation. This may happen for batched RPCs where some operations in the batch failed, causing the broker to respond without trying the rest."),
            ErrorCode::KafkaStorageError => String::from_str("Disk error when trying to access log file on the disk."),
            ErrorCode::LogDirNotFound => String::from_str("The user-specified log directory is not found in the broker config."),
            ErrorCode::SaslAuthenticationFailed => String::from_str("SASL Authentication failed."),
            ErrorCode::UnknownProducerId => String::from_str("This exception is raised by the broker if it could not locate the producer metadata associated with the producerId in question. This could happen if, for instance, the producer's records were deleted because their retention time had elapsed. Once the last records of the producerId are removed, the producer's metadata is removed from the broker, and future appends by the producer will return this exception."),
            ErrorCode::ReassignmentInProgress => String::from_str("A partition reassignment is in progress."),
            ErrorCode::DelegationTokenAuthDisabled => String::from_str("Delegation Token feature is not enabled."),
            ErrorCode::DelegationTokenNotFound => String::from_str("Delegation Token is not found on server."),
            ErrorCode::DelegationTokenOwnerMismatch => String::from_str("Specified Principal is not valid Owner/Renewer."),
            ErrorCode::DelegationTokenRequestNotAllowed => String::from_str("Delegation Token requests are not allowed on PLAINTEXT/1-way SSL channels and on delegation token authenticated channels."),
            ErrorCode::DelegationTokenAuthorizationFailed => String::from_str("Delegation Token authorization failed."),
            ErrorCode::DelegationTokenExpired => String::from_str("Delegation Token is expired."),
            ErrorCode::InvalidPrincipalType => String::from_str("Supplied principalType is not supported."),
            ErrorCode::NonEmptyGroup => String::from_str("The group is not empty."),
            ErrorCode::GroupIdNotFound => String::from_str("The group id does not exist."),
            ErrorCode::FetchSessionIdNotFound => String::from_str("The fetch session ID was not found."),
            ErrorCode::InvalidFetchSessionEpoch => String::from_str("The fetch session epoch is invalid."),
            ErrorCode::ListenerNotFound => String::from_str("There is no listener on the leader broker that matches the listener on which metadata request was processed."),
            ErrorCode::TopicDeletionDisabled => String::from_str("Topic deletion is disabled."),
            ErrorCode::FencedLeaderEpoch => String::from_str("The leader epoch in the request is older than the epoch on the broker."),
            ErrorCode::UnknownLeaderEpoch => String::from_str("The leader epoch in the request is newer than the epoch on the broker."),
            ErrorCode::UnsupportedCompressionType => String::from_str("The requesting client does not support the compression type of given partition."),
            ErrorCode::StaleBrokerEpoch => String::from_str("Broker epoch has changed."),
            ErrorCode::OffsetNotAvailable => String::from_str("The leader high watermark has not caught up from a recent leader election so the offsets cannot be guaranteed to be monotonically increasing."),
            ErrorCode::MemberIdRequired => String::from_str("The group member needs to have a valid member id before actually entering a consumer group."),
            ErrorCode::PreferredLeaderNotAvailable => String::from_str("The preferred leader was not available."),
            ErrorCode::GroupMaxSizeReached => String::from_str("The group has reached its maximum size."),
            ErrorCode::FencedInstanceId => String::from_str("The broker rejected this static consumer since another consumer with the same group.instance.id has registered with a different member.id."),
            ErrorCode::EligibleLeadersNotAvailable => String::from_str("Eligible topic partition leaders are not available."),
            ErrorCode::ElectionNotNeeded => String::from_str("Leader election not needed for topic partition."),
            ErrorCode::NoReassignmentInProgress => String::from_str("No partition reassignment is in progress."),
            ErrorCode::GroupSubscribedToTopic => String::from_str("Deleting offsets of a topic is forbidden while the consumer group is actively subscribed to it."),
            ErrorCode::InvalidRecord => String::from_str("This record has failed the validation on broker and hence will be rejected."),
            ErrorCode::UnstableOffsetCommit => String::from_str("There are unstable offsets that need to be cleared."),
            ErrorCode::ThrottlingQuotaExceeded => String::from_str("The throttling quota has been exceeded."),
            ErrorCode::ProducerFenced => String::from_str("There is a newer producer with the same transactionalId which fences the current one."),
            ErrorCode::ResourceNotFound => String::from_str("A request illegally referred to a resource that does not exist."),
            ErrorCode::DuplicateResource => String::from_str("A request illegally referred to the same resource twice."),
            ErrorCode::UnacceptableCredential => String::from_str("Requested credential would not meet criteria for acceptability."),
            ErrorCode::InconsistentVoterSet => String::from_str("Indicates that the either the sender or recipient of a voter-only request is not one of the expected voters."),
            ErrorCode::InvalidUpdateVersion => String::from_str("The given update version was invalid."),
            ErrorCode::FeatureUpdateFailed => String::from_str("Unable to update finalized features due to an unexpected server error."),
            ErrorCode::PrincipalDeserializationFailure => String::from_str("Request principal deserialization failed during forwarding. This indicates an internal error on the broker cluster security setup."),
            ErrorCode::SnapshotNotFound => String::from_str("Requested snapshot was not found."),
            ErrorCode::PositionOutOfRange => String::from_str("Requested position is not greater than or equal to zero, and less than the size of the snapshot."),
            ErrorCode::UnknownTopicId => String::from_str("This server does not host this topic ID."),
            ErrorCode::DuplicateBrokerRegistration => String::from_str("This broker ID is already in use."),
            ErrorCode::BrokerIdNotRegistered => String::from_str("The given broker ID was not registered."),
            ErrorCode::InconsistentTopicId => String::from_str("The log's topic ID did not match the topic ID in the request."),
            ErrorCode::InconsistentClusterId => String::from_str("The clusterId in the request does not match that found on the server."),
            ErrorCode::TransactionalIdNotFound => String::from_str("The transactionalId could not be found."),
            ErrorCode::FetchSessionTopicIdError => String::from_str("The fetch session encountered inconsistent topic ID usage."),
            ErrorCode::IneligibleReplica => String::from_str("The new ISR contains at least one ineligible replica."),
            ErrorCode::NewLeaderElected => String::from_str("The AlterPartition request successfully updated the partition state but the leader has changed."),
            ErrorCode::OffsetMovedToTieredStorage => String::from_str("The requested offset is moved to tiered storage."),
            ErrorCode::FencedMemberEpoch => String::from_str("The member epoch is fenced by the group coordinator. The member must abandon all its partitions and rejoin."),
            ErrorCode::UnreleasedInstanceId => String::from_str("The instance ID is still used by another member in the consumer group. That member must leave first."),
            ErrorCode::UnsupportedAssignor => String::from_str("The assignor or its version range is not supported by the consumer group."),
            ErrorCode::StaleMemberEpoch => String::from_str("The member epoch is stale. The member must retry after receiving its updated member epoch via the ConsumerGroupHeartbeat API."),
            ErrorCode::MismatchedEndpointType => String::from_str("The request was sent to an endpoint of the wrong type."),
            ErrorCode::UnsupportedEndpointType => String::from_str("This endpoint type is not supported yet."),
            ErrorCode::UnknownControllerId => String::from_str("This controller ID is not known."),
            ErrorCode::UnknownSubscriptionId => String::from_str("Client sent a push telemetry request with an invalid or outdated subscription ID."),
            ErrorCode::TelemetryTooLarge => String::from_str("Client sent a push telemetry request larger than the maximum size the broker will accept."),
            ErrorCode::InvalidRegistration => String::from_str("The controller has considered the broker registration to be invalid."),
            ErrorCode::TransactionAbortable => String::from_str("The server encountered an error with the transaction. The client can abort the transaction to continue using this transactional ID."),
            ErrorCode::InvalidRecordState => String::from_str("The record state is invalid. The acknowledgement of delivery could not be completed."),
            ErrorCode::ShareSessionNotFound => String::from_str("The share session was not found."),
            ErrorCode::InvalidShareSessionEpoch => String::from_str("The share session epoch is invalid."),
            ErrorCode::FencedStateEpoch => String::from_str("The share coordinator rejected the request because the share-group state epoch did not match."),
            ErrorCode::InvalidVoterKey => String::from_str("The voter key doesn't match the receiving replica's key."),
            ErrorCode::DuplicateVoter => String::from_str("The voter is already part of the set of voters."),
            ErrorCode::VoterNotFound => String::from_str("The voter is not part of the set of voters."),
            ErrorCode::InvalidRegularExpression => String::from_str("The regular expression is not valid."),
            ErrorCode::RebootstrapRequired => String::from_str("Client metadata is stale. The client should rebootstrap to obtain new metadata."),
            ErrorCode::StreamsInvalidTopology => String::from_str("The supplied topology is invalid."),
            ErrorCode::StreamsInvalidTopologyEpoch => String::from_str("The supplied topology epoch is invalid."),
            ErrorCode::StreamsTopologyFenced => String::from_str("The supplied topology epoch is outdated."),
            ErrorCode::ShareSessionLimitReached => String::from_str("The limit of share sessions has been reached."),
            ErrorCode::Unknown(c) => {
                let mut s = String::from_str("Unknown error code: ");
                append_decimal(&mut s, *c);
                s
            },
        }
    }
}

impl From<i16> for ErrorCode {
    fn from(code: i16) -> (r: Self) {
        match code {
            -1 => ErrorCode::UnknownServerError,
            0 => ErrorCode::NoError,
            1 => ErrorCode::OffsetOutOfRange,
            2 => ErrorCode::CorruptMessage,
            3 => ErrorCode::UnknownTopicOrPartition,
            4 => ErrorCode::InvalidFetchSize,
            5 => ErrorCode::LeaderNotAvailable,
            6 => ErrorCode::NotLeaderOrFollower,
            7 => ErrorCode::RequestTimedOut,
            8 => ErrorCode::BrokerNotAvailable,
            9 => ErrorCode::ReplicaNotAvailable,
            10 => ErrorCode::MessageTooLarge,
            11 => ErrorCode::StaleControllerEpoch,
            12 => ErrorCode::OffsetMetadataTooLarge,
            13 => ErrorCode::NetworkException,
            14 => ErrorCode::CoordinatorLoadInProgress,
            15 => ErrorCode::CoordinatorNotAvailable,
            16 => ErrorCode::NotCoordinator,
            17 => ErrorCode::InvalidTopicException,
            18 => ErrorCode::RecordListTooLarge,
            19 => ErrorCode::NotEnoughReplicas,
            20 => ErrorCode::NotEnoughReplicasAfterAppend,
            21 => ErrorCode::InvalidRequiredAcks,
            22 => ErrorCode::IllegalGeneration,
            23 => ErrorCode::InconsistentGroupProtocol,
            24 => ErrorCode::InvalidGroupId,
            25 => ErrorCode::UnknownMemberId,
            26 => ErrorCode::InvalidSessionTimeout,
            27 => ErrorCode::RebalanceInProgress,
            28 => ErrorCode::InvalidCommitOffsetSize,
            29 => ErrorCode::TopicAuthorizationFailed,
            30 => ErrorCode::GroupAuthorizationFailed,
            31 => ErrorCode::ClusterAuthorizationFailed,
            32 => ErrorCode::InvalidTimestamp,
            33 => ErrorCode::UnsupportedSaslMechanism,
            34 => ErrorCode::IllegalSaslState,
            35 => ErrorCode::UnsupportedVersion,
            36 => ErrorCode::TopicAlreadyExists,
            37 => ErrorCode::InvalidPartitions,
            38 => ErrorCode::InvalidReplicationFactor,
            39 => ErrorCode::InvalidReplicaAssignment,
            40 => ErrorCode::InvalidConfig,
            41 => ErrorCode::NotController,
            42 => ErrorCode::InvalidRequest,
            43 => ErrorCode::UnsupportedForMessageFormat,
            44 => ErrorCode::PolicyViolation,
            45 => ErrorCode::OutOfOrderSequenceNumber,
            46 => ErrorCode::DuplicateSequenceNumber,
            47 => ErrorCode::InvalidProducerEpoch,
            48 => ErrorCode::InvalidTxnState,
            49 => ErrorCode::InvalidProducerIdMapping,
            50 => ErrorCode::InvalidTransactionTimeout,
            51 => ErrorCode::ConcurrentTransactions,
            52 => ErrorCode::TransactionCoordinatorFenced,
            53 => ErrorCode::TransactionalIdAuthorizationFailed,
            54 => ErrorCode::SecurityDisabled,
            55 => ErrorCode::OperationNotAttempted,
            56 => ErrorCode::KafkaStorageError,
            57 => ErrorCode::LogDirNotFound,
            58 => ErrorCode::SaslAuthenticationFailed,
            59 => ErrorCode::UnknownProducerId,
            60 => ErrorCode::ReassignmentInProgress,
            61 => ErrorCode::DelegationTokenAuthDisabled,
            62 => ErrorCode::DelegationTokenNotFound,
            63 => ErrorCode::DelegationTokenOwnerMismatch,
            64 => ErrorCode::DelegationTokenRequestNotAllowed,
            65 => ErrorCode::DelegationTokenAuthorizationFailed,
            66 => ErrorCode::DelegationTokenExpired,
            67 => ErrorCode::InvalidPrincipalType,
            68 => ErrorCode::NonEmptyGroup,
            69 => ErrorCode::GroupIdNotFound,
            70 => ErrorCode::FetchSessionIdNotFound,
            71 => ErrorCode::InvalidFetchSessionEpoch,
            72 => ErrorCode::ListenerNotFound,
            73 => ErrorCode::TopicDeletionDisabled,
            74 => ErrorCode::FencedLeaderEpoch,
            75 => ErrorCode::UnknownLeaderEpoch,
            76 => ErrorCode::UnsupportedCompressionType,
            77 => ErrorCode::StaleBrokerEpoch,
            78 => ErrorCode::OffsetNotAvailable,
            79 => ErrorCode::MemberIdRequired,
            80 => ErrorCode::PreferredLeaderNotAvailable,
            81 => ErrorCode::GroupMaxSizeReached,
            82 => ErrorCode::FencedInstanceId,
            83 => ErrorCode::EligibleLeadersNotAvailable,
            84 => ErrorCode::ElectionNotNeeded,
            85 => ErrorCode::NoReassignmentInProgress,
            86 => ErrorCode::GroupSubscribedToTopic,
            87 => ErrorCode::InvalidRecord,
            88 => ErrorCode::UnstableOffsetCommit,
            89 => ErrorCode::ThrottlingQuotaExceeded,
            90 => ErrorCode::ProducerFenced,
            91 => ErrorCode::ResourceNotFound,
            92 => ErrorCode::DuplicateResource,
            93 => ErrorCode::UnacceptableCredential,
            94 => ErrorCode::InconsistentVoterSet,
            95 => ErrorCode::InvalidUpdateVersion,
            96 => ErrorCode::FeatureUpdateFailed,
            97 => ErrorCode::PrincipalDeserializationFailure,
            98 => ErrorCode::SnapshotNotFound,
            99 => ErrorCode::PositionOutOfRange,
            100 => ErrorCode::UnknownTopicId,
            101 => ErrorCode::DuplicateBrokerRegistration,
            102 => ErrorCode::BrokerIdNotRegistered,
            103 => ErrorCode::InconsistentTopicId,
            104 => ErrorCode::InconsistentClusterId,
            105 => ErrorCode::TransactionalIdNotFound,
            106 => ErrorCode::FetchSessionTopicIdError,
            107 => ErrorCode::IneligibleReplica,
            108 => ErrorCode::NewLeaderElected,
            109 => ErrorCode::OffsetMovedToTieredStorage,
            110 => ErrorCode::FencedMemberEpoch,
            111 => ErrorCode::UnreleasedInstanceId,
            112 => ErrorCode::UnsupportedAssignor,
            113 => ErrorCode::StaleMemberEpoch,
            114 => ErrorCode::MismatchedEndpointType,
            115 => ErrorCode::UnsupportedEndpointType,
            116 => ErrorCode::UnknownControllerId,
            117 => ErrorCode::UnknownSubscriptionId,
            118 => ErrorCode::TelemetryTooLarge,
            119 => ErrorCode::InvalidRegistration,
            120 => ErrorCode::TransactionAbortable,
            121 => ErrorCode::InvalidRecordState,
            122 => ErrorCode::ShareSessionNotFound,
            123 => ErrorCode::InvalidShareSessionEpoch,
            124 => ErrorCode::FencedStateEpoch,
            125 => ErrorCode::InvalidVoterKey,
            126 => ErrorCode::DuplicateVoter,
            127 => ErrorCode::VoterNotFound,
            128 => ErrorCode::InvalidRegularExpression,
            129 => ErrorCode::RebootstrapRequired,
            130 => ErrorCode::StreamsInvalidTopology,
            131 => ErrorCode::StreamsInvalidTopologyEpoch,
            132 => ErrorCode::StreamsTopologyFenced,
            133 => ErrorCode::ShareSessionLimitReached,
            other => ErrorCode::Unknown(other),
        }
    }
}

impl vstd::std_specs::convert::FromSpecImpl<i16> for ErrorCode {
    open spec fn obeys_from_spec() -> bool {
        true
    }

    open spec fn from_spec(v: i16) -> ErrorCode {
        ErrorCode::from_wire(v)
    }
}

impl From<ErrorCode> for i16 {
    fn from(error: ErrorCode) -> (r: Self) {
        error.code()
    }
}

impl vstd::std_specs::convert::FromSpecImpl<ErrorCode> for i16 {
    open spec fn obeys_from_spec() -> bool {
        true
    }

    open spec fn from_spec(v: ErrorCode) -> i16 {
        v.wire_value()
    }
}

/// The character of the decimal digit `d`.
pub open spec fn digit_char(d: int) -> char {
    (d + 48) as char
}

/// The decimal digits of `n`, most significant first.
pub open spec fn natural_digits(n: nat) -> Seq<char>
    decreases n,
{
    if n < 10 {
        seq![digit_char(n as int)]
    } else {
        natural_digits(n / 10).push(digit_char((n % 10) as int))
    }
}

/// `v` in decimal, with a minus sign if it is negative.
pub open spec fn decimal_text(v: int) -> Seq<char> {
    if v < 0 {
        seq!['-'] + natural_digits((-v) as nat)
    } else {
        natural_digits(v as nat)
    }
}

/// The decimal digit `d` as a string.
fn digit_str(d: u32) -> (r: &'static str)
    requires
        d < 10,
    ensures
        r@ == seq![digit_char(d as int)],
{
    proof {
        reveal_strlit("0");
        reveal_strlit("1");
        reveal_strlit("2");
        reveal_strlit("3");
        reveal_strlit("4");
        reveal_strlit("5");
        reveal_strlit("6");
        reveal_strlit("7");
        reveal_strlit("8");
        reveal_strlit("9");
    }
    match d {
        0 => "0",
        1 => "1",
        2 => "2",
        3 => "3",
        4 => "4",
        5 => "5",
        6 => "6",
        7 => "7",
        8 => "8",
        _ => "9",
    }
}

/// Appends the decimal digits of `n` to `s`.
fn append_digits(s: &mut String, n: u32)
    ensures
        final(s)@ == old(s)@ + natural_digits(n as nat),
    decreases n,
{
    if n >= 10 {
        append_digits(s, n / 10);
    }
    s.append(digit_str(n % 10));
}

/// Appends `v` in decimal to `s`, with a minus sign if it is negative.
fn append_decimal(s: &mut String, v: i16)
    ensures
        final(s)@ == old(s)@ + decimal_text(v as int),
{
    let ghost before = s@;
    if v < 0 {
        proof {
            reveal_strlit("-");
        }
        s.append("-");
        let magnitude: u32 = (0 - (v as i32)) as u32;
        append_digits(s, magnitude);
        assert(s@ =~= before + (seq!['-'] + natural_digits(magnitude as nat)));
    } else {
        append_digits(s, v as u32);
    }
}

/// Reading a code back from the value that `code` gives returns it: the wire
/// value of every canonical error code names it again.
pub proof fn lemma_code_round_trip(e: ErrorCode)
    requires
        e.is_canonical(),
    ensures
        ErrorCode::from_wire(e.wire_value()) == e,
{
}

/// Every `i16` survives the trip through `ErrorCode`: `code(from(c)) == c`,
/// and what `from` gives is canonical.
pub proof fn lemma_wire_round_trip(c: i16)
    ensures
        ErrorCode::from_wire(c).wire_value() == c,
        ErrorCode::from_wire(c).is_canonical(),
{
}

/// The wire value of every known error code is the number Kafka assigns it,
/// and that number names the code again.
#[verifier::rlimit(60)]
pub proof fn lemma_code_table()
    ensures
        ErrorCode::UnknownServerError.wire_value() == -1i16,
        ErrorCode::NoError.wire_value() == 0i16,
        ErrorCode::OffsetOutOfRange.wire_value() == 1i16,
        ErrorCode::CorruptMessage.wire_value() == 2i16,
        ErrorCode::UnknownTopicOrPartition.wire_value() == 3i16,
        ErrorCode::InvalidFetchSize.wire_value() == 4i16,
        ErrorCode::LeaderNotAvailable.wire_value() == 5i16,
        ErrorCode::NotLeaderOrFollower.wire_value() == 6i16,
        ErrorCode::RequestTimedOut.wire_value() == 7i16,
        ErrorCode::BrokerNotAvailable.wire_value() == 8i16,
        ErrorCode::ReplicaNotAvailable.wire_value() == 9i16,
        ErrorCode::MessageTooLarge.wire_value() == 10i16,
        ErrorCode::StaleControllerEpoch.wire_value() == 11i16,
        ErrorCode::OffsetMetadataTooLarge.wire_value() == 12i16,
        ErrorCode::NetworkException.wire_value() == 13i16,
        ErrorCode::CoordinatorLoadInProgress.wire_value() == 14i16,
        ErrorCode::CoordinatorNotAvailable.wire_value() == 15i16,
        ErrorCode::NotCoordinator.wire_value() == 16i16,
        ErrorCode::InvalidTopicException.wire_value() == 17i16,
        ErrorCode::RecordListTooLarge.wire_value() == 18i16,
        ErrorCode::NotEnoughReplicas.wire_value() == 19i16,
        ErrorCode::NotEnoughReplicasAfterAppend.wire_value() == 20i16,
        ErrorCode::InvalidRequiredAcks.wire_value() == 21i16,
        ErrorCode::IllegalGeneration.wire_value() == 22i16,
        ErrorCode::InconsistentGroupProtocol.wire_value() == 23i16,
        ErrorCode::InvalidGroupId.wire_value() == 24i16,
        ErrorCode::UnknownMemberId.wire_value() == 25i16,
        ErrorCode::InvalidSessionTimeout.wire_value() == 26i16,
        ErrorCode::RebalanceInProgress.wire_value() == 27i16,
        ErrorCode::InvalidCommitOffsetSize.wire_value() == 28i16,
        ErrorCode::TopicAuthorizationFailed.wire_value() == 29i16,
        ErrorCode::GroupAuthorizationFailed.wire_value() == 30i16,
        ErrorCode::ClusterAuthorizationFailed.wire_value() == 31i16,
        ErrorCode::InvalidTimestamp.wire_value() == 32i16,
        ErrorCode::UnsupportedSaslMechanism.wire_value() == 33i16,
        ErrorCode::IllegalSaslState.wire_value() == 34i16,
        ErrorCode::UnsupportedVersion.wire_value() == 35i16,
        ErrorCode::TopicAlreadyExists.wire_value() == 36i16,
        ErrorCode::InvalidPartitions.wire_value() == 37i16,
        ErrorCode::InvalidReplicationFactor.wire_value() == 38i16,
        ErrorCode::InvalidReplicaAssignment.wire_value() == 39i16,
        ErrorCode::InvalidConfig.wire_value() == 40i16,
        ErrorCode::NotController.wire_value() == 41i16,
        ErrorCode::InvalidRequest.wire_value() == 42i16,
        ErrorCode::UnsupportedForMessageFormat.wire_value() == 43i16,
        ErrorCode::PolicyViolation.wire_value() == 44i16,
        ErrorCode::OutOfOrderSequenceNumber.wire_value() == 45i16,
        ErrorCode::DuplicateSequenceNumber.wire_value() == 46i16,
        ErrorCode::InvalidProducerEpoch.wire_value() == 47i16,
        ErrorCode::InvalidTxnState.wire_value() == 48i16,
        ErrorCode::InvalidProducerIdMapping.wire_value() == 49i16,
        ErrorCode::InvalidTransactionTimeout.wire_value() == 50i16,
        ErrorCode::ConcurrentTransactions.wire_value() == 51i16,
        ErrorCode::TransactionCoordinatorFenced.wire_value() == 52i16,
        ErrorCode::TransactionalIdAuthorizationFailed.wire_value() == 53i16,
        ErrorCode::SecurityDisabled.wire_value() == 54i16,
        ErrorCode::OperationNotAttempted.wire_value() == 55i16,
        ErrorCode::KafkaStorageError.wire_value() == 56i16,
        ErrorCode::LogDirNotFound.wire_value() == 57i16,
        ErrorCode::SaslAuthenticationFailed.wire_value() == 58i16,
        ErrorCode::UnknownProducerId.wire_value() == 59i16,
        ErrorCode::ReassignmentInProgress.wire_value() == 60i16,
        ErrorCode::DelegationTokenAuthDisabled.wire_value() == 61i16,
        ErrorCode::DelegationTokenNotFound.wire_value() == 62i16,
        ErrorCode::DelegationTokenOwnerMismatch.wire_value() == 63i16,
        ErrorCode::DelegationTokenRequestNotAllowed.wire_value() == 64i16,
        ErrorCode::DelegationTokenAuthorizationFailed.wire_value() == 65i16,
        ErrorCode::DelegationTokenExpired.wire_value() == 66i16,
        ErrorCode::InvalidPrincipalType.wire_value() == 67i16,
        ErrorCode::NonEmptyGroup.wire_value() == 68i16,
        ErrorCode::GroupIdNotFound.wire_value() == 69i16,
        ErrorCode::FetchSessionIdNotFound.wire_value() == 70i16,
        ErrorCode::InvalidFetchSessionEpoch.wire_value() == 71i16,
        ErrorCode::ListenerNotFound.wire_value() == 72i16,
        ErrorCode::TopicDeletionDisabled.wire_value() == 73i16,
        ErrorCode::FencedLeaderEpoch.wire_value() == 74i16,
        ErrorCode::UnknownLeaderEpoch.wire_value() == 75i16,
        ErrorCode::UnsupportedCompressionType.wire_value() == 76i16,
        ErrorCode::StaleBrokerEpoch.wire_value() == 77i16,
        ErrorCode::OffsetNotAvailable.wire_value() == 78i16,
        ErrorCode::MemberIdRequired.wire_value() == 79i16,
        ErrorCode::PreferredLeaderNotAvailable.wire_value() == 80i16,
        ErrorCode::GroupMaxSizeReached.wire_value() == 81i16,
        ErrorCode::FencedInstanceId.wire_value() == 82i16,
        ErrorCode::EligibleLeadersNotAvailable.wire_value() == 83i16,
        ErrorCode::ElectionNotNeeded.wire_value() == 84i16,
        ErrorCode::NoReassignmentInProgress.wire_value() == 85i16,
        ErrorCode::GroupSubscribedToTopic.wire_value() == 86i16,
        ErrorCode::InvalidRecord.wire_value() == 87i16,
        ErrorCode::UnstableOffsetCommit.wire_value() == 88i16,
        ErrorCode::ThrottlingQuotaExceeded.wire_value() == 89i16,
        ErrorCode::ProducerFenced.wire_value() == 90i16,
        ErrorCode::ResourceNotFound.wire_value() == 91i16,
        ErrorCode::DuplicateResource.wire_value() == 92i16,
        ErrorCode::UnacceptableCredential.wire_value() == 93i16,
        ErrorCode::InconsistentVoterSet.wire_value() == 94i16,
        ErrorCode::InvalidUpdateVersion.wire_value() == 95i16,
        ErrorCode::FeatureUpdateFailed.wire_value() == 96i16,
        ErrorCode::PrincipalDeserializationFailure.wire_value() == 97i16,
        ErrorCode::SnapshotNotFound.wire_value() == 98i16,
        ErrorCode::PositionOutOfRange.wire_value() == 99i16,
        ErrorCode::UnknownTopicId.wire_value() == 100i16,
        ErrorCode::DuplicateBrokerRegistration.wire_value() == 101i16,
        ErrorCode::BrokerIdNotRegistered.wire_value() == 102i16,
        ErrorCode::InconsistentTopicId.wire_value() == 103i16,
        ErrorCode::InconsistentClusterId.wire_value() == 104i16,
        ErrorCode::TransactionalIdNotFound.wire_value() == 105i16,
        ErrorCode::FetchSessionTopicIdError.wire_value() == 106i16,
        ErrorCode::IneligibleReplica.wire_value() == 107i16,
        ErrorCode::NewLeaderElected.wire_value() == 108i16,
        ErrorCode::OffsetMovedToTieredStorage.wire_value() == 109i16,
        ErrorCode::FencedMemberEpoch.wire_value() == 110i16,
        ErrorCode::UnreleasedInstanceId.wire_value() == 111i16,
        ErrorCode::UnsupportedAssignor.wire_value() == 112i16,
        ErrorCode::StaleMemberEpoch.wire_value() == 113i16,
        ErrorCode::MismatchedEndpointType.wire_value() == 114i16,
        ErrorCode::UnsupportedEndpointType.wire_value() == 115i16,
        ErrorCode::UnknownControllerId.wire_value() == 116i16,
        ErrorCode::UnknownSubscriptionId.wire_value() == 117i16,
        ErrorCode::TelemetryTooLarge.wire_value() == 118i16,
        ErrorCode::InvalidRegistration.wire_value() == 119i16,
        ErrorCode::TransactionAbortable.wire_value() == 120i16,
        ErrorCode::InvalidRecordState.wire_value() == 121i16,
        ErrorCode::ShareSessionNotFound.wire_value() == 122i16,
        ErrorCode::InvalidShareSessionEpoch.wire_value() == 123i16,
        ErrorCode::FencedStateEpoch.wire_value() == 124i16,
        ErrorCode::InvalidVoterKey.wire_value() == 125i16,
        ErrorCode::DuplicateVoter.wire_value() == 126i16,
        ErrorCode::VoterNotFound.wire_value() == 127i16,
        ErrorCode::InvalidRegularExpression.wire_value() == 128i16,
        ErrorCode::RebootstrapRequired.wire_value() == 129i16,
        ErrorCode::StreamsInvalidTopology.wire_value() == 130i16,
        ErrorCode::StreamsInvalidTopologyEpoch.wire_value() == 131i16,
        ErrorCode::StreamsTopologyFenced.wire_value() == 132i16,
        ErrorCode::ShareSessionLimitReached.wire_value() == 133i16,
        ErrorCode::from_wire(-1i16) == ErrorCode::UnknownServerError,
        ErrorCode::from_wire(0i16) == ErrorCode::NoError,
        ErrorCode::from_wire(1i16) == ErrorCode::OffsetOutOfRange,
        ErrorCode::from_wire(2i16) == ErrorCode::CorruptMessage,
        ErrorCode::from_wire(3i16) == ErrorCode::UnknownTopicOrPartition,
        ErrorCode::from_wire(4i16) == ErrorCode::InvalidFetchSize,
        ErrorCode::from_wire(5i16) == ErrorCode::LeaderNotAvailable,
        ErrorCode::from_wire(6i16) == ErrorCode::NotLeaderOrFollower,
        ErrorCode::from_wire(7i16) == ErrorCode::RequestTimedOut,
        ErrorCode::from_wire(8i16) == ErrorCode::BrokerNotAvailable,
        ErrorCode::from_wire(9i16) == ErrorCode::ReplicaNotAvailable,
        ErrorCode::from_wire(10i16) == ErrorCode::MessageTooLarge,
        ErrorCode::from_wire(11i16) == ErrorCode::StaleControllerEpoch,
        ErrorCode::from_wire(12i16) == ErrorCode::OffsetMetadataTooLarge,
        ErrorCode::from_wire(13i16) == ErrorCode::NetworkException,
        ErrorCode::from_wire(14i16) == ErrorCode::CoordinatorLoadInProgress,
        ErrorCode::from_wire(15i16) == ErrorCode::CoordinatorNotAvailable,
        ErrorCode::from_wire(16i16) == ErrorCode::NotCoordinator,
        ErrorCode::from_wire(17i16) == ErrorCode::InvalidTopicException,
        ErrorCode::from_wire(18i16) == ErrorCode::RecordListTooLarge,
        ErrorCode::from_wire(19i16) == ErrorCode::NotEnoughReplicas,
        ErrorCode::from_wire(20i16) == ErrorCode::NotEnoughReplicasAfterAppend,
        ErrorCode::from_wire(21i16) == ErrorCode::InvalidRequiredAcks,
        ErrorCode::from_wire(22i16) == ErrorCode::IllegalGeneration,
        ErrorCode::from_wire(23i16) == ErrorCode::InconsistentGroupProtocol,
        ErrorCode::from_wire(24i16) == ErrorCode::InvalidGroupId,
        ErrorCode::from_wire(25i16) == ErrorCode::UnknownMemberId,
        ErrorCode::from_wire(26i16) == ErrorCode::InvalidSessionTimeout,
        ErrorCode::from_wire(27i16) == ErrorCode::RebalanceInProgress,
        ErrorCode::from_wire(28i16) == ErrorCode::InvalidCommitOffsetSize,
        ErrorCode::from_wire(29i16) == ErrorCode::TopicAuthorizationFailed,
        ErrorCode::from_wire(30i16) == ErrorCode::GroupAuthorizationFailed,
        ErrorCode::from_wire(31i16) == ErrorCode::ClusterAuthorizationFailed,
        ErrorCode::from_wire(32i16) == ErrorCode::InvalidTimestamp,
        ErrorCode::from_wire(33i16) == ErrorCode::UnsupportedSaslMechanism,
        ErrorCode::from_wire(34i16) == ErrorCode::IllegalSaslState,
        ErrorCode::from_wire(35i16) == ErrorCode::UnsupportedVersion,
        ErrorCode::from_wire(36i16) == ErrorCode::TopicAlreadyExists,
        ErrorCode::from_wire(37i16) == ErrorCode::InvalidPartitions,
        ErrorCode::from_wire(38i16) == ErrorCode::InvalidReplicationFactor,
        ErrorCode::from_wire(39i16) == ErrorCode::InvalidReplicaAssignment,
        ErrorCode::from_wire(40i16) == ErrorCode::InvalidConfig,
        ErrorCode::from_wire(41i16) == ErrorCode::NotController,
        ErrorCode::from_wire(42i16) == ErrorCode::InvalidRequest,
        ErrorCode::from_wire(43i16) == ErrorCode::UnsupportedForMessageFormat,
        ErrorCode::from_wire(44i16) == ErrorCode::PolicyViolation,
        ErrorCode::from_wire(45i16) == ErrorCode::OutOfOrderSequenceNumber,
        ErrorCode::from_wire(46i16) == ErrorCode::DuplicateSequenceNumber,
        ErrorCode::from_wire(47i16) == ErrorCode::InvalidProducerEpoch,
        ErrorCode::from_wire(48i16) == ErrorCode::InvalidTxnState,
        ErrorCode::from_wire(49i16) == ErrorCode::InvalidProducerIdMapping,
        ErrorCode::from_wire(50i16) == ErrorCode::InvalidTransactionTimeout,
        ErrorCode::from_wire(51i16) == ErrorCode::ConcurrentTransactions,
        ErrorCode::from_wire(52i16) == ErrorCode::TransactionCoordinatorFenced,
        ErrorCode::from_wire(53i16) == ErrorCode::TransactionalIdAuthorizationFailed,
        ErrorCode::from_wire(54i16) == ErrorCode::SecurityDisabled,
        ErrorCode::from_wire(55i16) == ErrorCode::OperationNotAttempted,
        ErrorCode::from_wire(56i16) == ErrorCode::KafkaStorageError,
        ErrorCode::from_wire(57i16) == ErrorCode::LogDirNotFound,
        ErrorCode::from_wire(58i16) == ErrorCode::SaslAuthenticationFailed,
        ErrorCode::from_wire(59i16) == ErrorCode::UnknownProducerId,
        ErrorCode::from_wire(60i16) == ErrorCode::ReassignmentInProgress,
        ErrorCode::from_wire(61i16) == ErrorCode::DelegationTokenAuthDisabled,
        ErrorCode::from_wire(62i16) == ErrorCode::DelegationTokenNotFound,
        ErrorCode::from_wire(63i16) == ErrorCode::DelegationTokenOwnerMismatch,
        ErrorCode::from_wire(64i16) == ErrorCode::DelegationTokenRequestNotAllowed,
        ErrorCode::from_wire(65i16) == ErrorCode::DelegationTokenAuthorizationFailed,
        ErrorCode::from_wire(66i16) == ErrorCode::DelegationTokenExpired,
        ErrorCode::from_wire(67i16) == ErrorCode::InvalidPrincipalType,
        ErrorCode::from_wire(68i16) == ErrorCode::NonEmptyGroup,
        ErrorCode::from_wire(69i16) == ErrorCode::GroupIdNotFound,
        ErrorCode::from_wire(70i16) == ErrorCode::FetchSessionIdNotFound,
        ErrorCode::from_wire(71i16) == ErrorCode::InvalidFetchSessionEpoch,
        ErrorCode::from_wire(72i16) == ErrorCode::ListenerNotFound,
        ErrorCode::from_wire(73i16) == ErrorCode::TopicDeletionDisabled,
        ErrorCode::from_wire(74i16) == ErrorCode::FencedLeaderEpoch,
        ErrorCode::from_wire(75i16) == ErrorCode::UnknownLeaderEpoch,
        ErrorCode::from_wire(76i16) == ErrorCode::UnsupportedCompressionType,
        ErrorCode::from_wire(77i16) == ErrorCode::StaleBrokerEpoch,
        ErrorCode::from_wire(78i16) == ErrorCode::OffsetNotAvailable,
        ErrorCode::from_wire(79i16) == ErrorCode::MemberIdRequired,
        ErrorCode::from_wire(80i16) == ErrorCode::PreferredLeaderNotAvailable,
        ErrorCode::from_wire(81i16) == ErrorCode::GroupMaxSizeReached,
        ErrorCode::from_wire(82i16) == ErrorCode::FencedInstanceId,
        ErrorCode::from_wire(83i16) == ErrorCode::EligibleLeadersNotAvailable,
        ErrorCode::from_wire(84i16) == ErrorCode::ElectionNotNeeded,
        ErrorCode::from_wire(85i16) == ErrorCode::NoReassignmentInProgress,
        ErrorCode::from_wire(86i16) == ErrorCode::GroupSubscribedToTopic,
        ErrorCode::from_wire(87i16) == ErrorCode::InvalidRecord,
        ErrorCode::from_wire(88i16) == ErrorCode::UnstableOffsetCommit,
        ErrorCode::from_wire(89i16) == ErrorCode::ThrottlingQuotaExceeded,
        ErrorCode::from_wire(90i16) == ErrorCode::ProducerFenced,
        ErrorCode::from_wire(91i16) == ErrorCode::ResourceNotFound,
        ErrorCode::from_wire(92i16) == ErrorCode::DuplicateResource,
        ErrorCode::from_wire(93i16) == ErrorCode::UnacceptableCredential,
        ErrorCode::from_wire(94i16) == ErrorCode::InconsistentVoterSet,
        ErrorCode::from_wire(95i16) == ErrorCode::InvalidUpdateVersion,
        ErrorCode::from_wire(96i16) == ErrorCode::FeatureUpdateFailed,
        ErrorCode::from_wire(97i16) == ErrorCode::PrincipalDeserializationFailure,
        ErrorCode::from_wire(98i16) == ErrorCode::SnapshotNotFound,
        ErrorCode::from_wire(99i16) == ErrorCode::PositionOutOfRange,
        ErrorCode::from_wire(100i16) == ErrorCode::UnknownTopicId,
        ErrorCode::from_wire(101i16) == ErrorCode::DuplicateBrokerRegistration,
        ErrorCode::from_wire(102i16) == ErrorCode::BrokerIdNotRegistered,
        ErrorCode::from_wire(103i16) == ErrorCode::InconsistentTopicId,
        ErrorCode::from_wire(104i16) == ErrorCode::InconsistentClusterId,
        ErrorCode::from_wire(105i16) == ErrorCode::TransactionalIdNotFound,
        ErrorCode::from_wire(106i16) == ErrorCode::FetchSessionTopicIdError,
        ErrorCode::from_wire(107i16) == ErrorCode::IneligibleReplica,
        ErrorCode::from_wire(108i16) == ErrorCode::NewLeaderElected,
        ErrorCode::from_wire(109i16) == ErrorCode::OffsetMovedToTieredStorage,
        ErrorCode::from_wire(110i16) == ErrorCode::FencedMemberEpoch,
        ErrorCode::from_wire(111i16) == ErrorCode::UnreleasedInstanceId,
        ErrorCode::from_wire(112i16) == ErrorCode::UnsupportedAssignor,
        ErrorCode::from_wire(113i16) == ErrorCode::StaleMemberEpoch,
        ErrorCode::from_wire(114i16) == ErrorCode::MismatchedEndpointType,
        ErrorCode::from_wire(115i16) == ErrorCode::UnsupportedEndpointType,
        ErrorCode::from_wire(116i16) == ErrorCode::UnknownControllerId,
        ErrorCode::from_wire(117i16) == ErrorCode::UnknownSubscriptionId,
        ErrorCode::from_wire(118i16) == ErrorCode::TelemetryTooLarge,
        ErrorCode::from_wire(119i16) == ErrorCode::InvalidRegistration,
        ErrorCode::from_wire(120i16) == ErrorCode::TransactionAbortable,
        ErrorCode::from_wire(121i16) == ErrorCode::InvalidRecordState,
        ErrorCode::from_wire(122i16) == ErrorCode::ShareSessionNotFound,
        ErrorCode::from_wire(123i16) == ErrorCode::InvalidShareSessionEpoch,
        ErrorCode::from_wire(124i16) == ErrorCode::FencedStateEpoch,
        ErrorCode::from_wire(125i16) == ErrorCode::InvalidVoterKey,
        ErrorCode::from_wire(126i16) == ErrorCode::DuplicateVoter,
        ErrorCode::from_wire(127i16) == ErrorCode::VoterNotFound,
        ErrorCode::from_wire(128i16) == ErrorCode::InvalidRegularExpression,
        ErrorCode::from_wire(129i16) == ErrorCode::RebootstrapRequired,
        ErrorCode::from_wire(130i16) == ErrorCode::StreamsInvalidTopology,
        ErrorCode::from_wire(131i16) == ErrorCode::StreamsInvalidTopologyEpoch,
        ErrorCode::from_wire(132i16) == ErrorCode::StreamsTopologyFenced,
        ErrorCode::from_wire(133i16) == ErrorCode::ShareSessionLimitReached,
{
}

/// The retriable error codes are exactly those of Kafka's retriable
/// exceptions; every other code, and every unknown one, is not retriable.
#[verifier::rlimit(60)]
pub proof fn lemma_retriable_set()
    ensures
        !ErrorCode::UnknownServerError.retriable(),
        !ErrorCode::NoError.retriable(),
        !ErrorCode::OffsetOutOfRange.retriable(),
        ErrorCode::CorruptMessage.retriable(),
        ErrorCode::UnknownTopicOrPartition.retriable(),
        !ErrorCode::InvalidFetchSize.retriable(),
        ErrorCode::LeaderNotAvailable.retriable(),
        ErrorCode::NotLeaderOrFollower.retriable(),
        ErrorCode::RequestTimedOut.retriable(),
        !ErrorCode::BrokerNotAvailable.retriable(),
        ErrorCode::ReplicaNotAvailable.retriable(),
        !ErrorCode::MessageTooLarge.retriable(),
        ErrorCode::StaleControllerEpoch.retriable(),
        !ErrorCode::OffsetMetadataTooLarge.retriable(),
        ErrorCode::NetworkException.retriable(),
        ErrorCode::CoordinatorLoadInProgress.retriable(),
        ErrorCode::CoordinatorNotAvailable.retriable(),
        ErrorCode::NotCoordinator.retriable(),
        !ErrorCode::InvalidTopicException.retriable(),
        !ErrorCode::RecordListTooLarge.retriable(),
        ErrorCode::NotEnoughReplicas.retriable(),
        ErrorCode::NotEnoughReplicasAfterAppend.retriable(),
        !ErrorCode::InvalidRequiredAcks.retriable(),
        !ErrorCode::IllegalGeneration.retriable(),
        !ErrorCode::InconsistentGroupProtocol.retriable(),
        !ErrorCode::InvalidGroupId.retriable(),
        !ErrorCode::UnknownMemberId.retriable(),
        !ErrorCode::InvalidSessionTimeout.retriable(),
        ErrorCode::RebalanceInProgress.retriable(),
        !ErrorCode::InvalidCommitOffsetSize.retriable(),
        !ErrorCode::TopicAuthorizationFailed.retriable(),
        !ErrorCode::GroupAuthorizationFailed.retriable(),
        !ErrorCode::ClusterAuthorizationFailed.retriable(),
        !ErrorCode::InvalidTimestamp.retriable(),
        !ErrorCode::UnsupportedSaslMechanism.retriable(),
        !ErrorCode::IllegalSaslState.retriable(),
        !ErrorCode::UnsupportedVersion.retriable(),
        !ErrorCode::TopicAlreadyExists.retriable(),
        !ErrorCode::InvalidPartitions.retriable(),
        !ErrorCode::InvalidReplicationFactor.retriable(),
        !ErrorCode::InvalidReplicaAssignment.retriable(),
        !ErrorCode::InvalidConfig.retriable(),
        ErrorCode::NotController.retriable(),
        !ErrorCode::InvalidRequest.retriable(),
        !ErrorCode::UnsupportedForMessageFormat.retriable(),
        !ErrorCode::PolicyViolation.retriable(),
        !ErrorCode::OutOfOrderSequenceNumber.retriable(),
        !ErrorCode::DuplicateSequenceNumber.retriable(),
        !ErrorCode::InvalidProducerEpoch.retriable(),
        !ErrorCode::InvalidTxnState.retriable(),
        !ErrorCode::InvalidProducerIdMapping.retriable(),
        !ErrorCode::InvalidTransactionTimeout.retriable(),
        !ErrorCode::ConcurrentTransactions.retriable(),
        !ErrorCode::TransactionCoordinatorFenced.retriable(),
        !ErrorCode::TransactionalIdAuthorizationFailed.retriable(),
        !ErrorCode::SecurityDisabled.retriable(),
        !ErrorCode::OperationNotAttempted.retriable(),
        !ErrorCode::KafkaStorageError.retriable(),
        !ErrorCode::LogDirNotFound.retriable(),
        !ErrorCode::SaslAuthenticationFailed.retriable(),
        !ErrorCode::UnknownProducerId.retriable(),
        !ErrorCode::ReassignmentInProgress.retriable(),
        !ErrorCode::DelegationTokenAuthDisabled.retriable(),
        !ErrorCode::DelegationTokenNotFound.retriable(),
        !ErrorCode::DelegationTokenOwnerMismatch.retriable(),
        !ErrorCode::DelegationTokenRequestNotAllowed.retriable(),
        !ErrorCode::DelegationTokenAuthorizationFailed.retriable(),
        !ErrorCode::DelegationTokenExpired.retriable(),
        !ErrorCode::InvalidPrincipalType.retriable(),
        !ErrorCode::NonEmptyGroup.retriable(),
        !ErrorCode::GroupIdNotFound.retriable(),
        ErrorCode::FetchSessionIdNotFound.retriable(),
        ErrorCode::InvalidFetchSessionEpoch.retriable(),
        !ErrorCode::ListenerNotFound.retriable(),
        !ErrorCode::TopicDeletionDisabled.retriable(),
        !ErrorCode::FencedLeaderEpoch.retriable(),
        !ErrorCode::UnknownLeaderEpoch.retriable(),
        !ErrorCode::UnsupportedCompressionType.retriable(),
        !ErrorCode::StaleBrokerEpoch.retriable(),
        ErrorCode::OffsetNotAvailable.retriable(),
        !ErrorCode::MemberIdRequired.retriable(),
        ErrorCode::PreferredLeaderNotAvailable.retriable(),
        !ErrorCode::GroupMaxSizeReached.retriable(),
        !ErrorCode::FencedInstanceId.retriable(),
        ErrorCode::EligibleLeadersNotAvailable.retriable(),
        ErrorCode::ElectionNotNeeded.retriable(),
        ErrorCode::NoReassignmentInProgress.retriable(),
        !ErrorCode::GroupSubscribedToTopic.retriable(),
        !ErrorCode::InvalidRecord.retriable(),
        ErrorCode::UnstableOffsetCommit.retriable(),
        ErrorCode::ThrottlingQuotaExceeded.retriable(),
        !ErrorCode::ProducerFenced.retriable(),
        !ErrorCode::ResourceNotFound.retriable(),
        !ErrorCode::DuplicateResource.retriable(),
        !ErrorCode::UnacceptableCredential.retriable(),
        !ErrorCode::InconsistentVoterSet.retriable(),
        !ErrorCode::InvalidUpdateVersion.retriable(),
        !ErrorCode::FeatureUpdateFailed.retriable(),
        !ErrorCode::PrincipalDeserializationFailure.retriable(),
        !ErrorCode::SnapshotNotFound.retriable(),
        !ErrorCode::PositionOutOfRange.retriable(),
        ErrorCode::UnknownTopicId.retriable(),
        !ErrorCode::DuplicateBrokerRegistration.retriable(),
        !ErrorCode::BrokerIdNotRegistered.retriable(),
        !ErrorCode::InconsistentTopicId.retriable(),
        !ErrorCode::InconsistentClusterId.retriable(),
        !ErrorCode::TransactionalIdNotFound.retriable(),
        ErrorCode::FetchSessionTopicIdError.retriable(),
        !ErrorCode::IneligibleReplica.retriable(),
        ErrorCode::NewLeaderElected.retriable(),
        ErrorCode::OffsetMovedToTieredStorage.retriable(),
        ErrorCode::FencedMemberEpoch.retriable(),
        ErrorCode::UnreleasedInstanceId.retriable(),
        !ErrorCode::UnsupportedAssignor.retriable(),
        ErrorCode::StaleMemberEpoch.retriable(),
        !ErrorCode::MismatchedEndpointType.retriable(),
        !ErrorCode::UnsupportedEndpointType.retriable(),
        !ErrorCode::UnknownControllerId.retriable(),
        !ErrorCode::UnknownSubscriptionId.retriable(),
        !ErrorCode::TelemetryTooLarge.retriable(),
        !ErrorCode::InvalidRegistration.retriable(),
        !ErrorCode::TransactionAbortable.retriable(),
        !ErrorCode::InvalidRecordState.retriable(),
        ErrorCode::ShareSessionNotFound.retriable(),
        ErrorCode::InvalidShareSessionEpoch.retriable(),
        !ErrorCode::FencedStateEpoch.retriable(),
        !ErrorCode::InvalidVoterKey.retriable(),
        !ErrorCode::DuplicateVoter.retriable(),
        !ErrorCode::VoterNotFound.retriable(),
        !ErrorCode::InvalidRegularExpression.retriable(),
        ErrorCode::RebootstrapRequired.retriable(),
        !ErrorCode::StreamsInvalidTopology.retriable(),
        !ErrorCode::StreamsInvalidTopologyEpoch.retriable(),
        !ErrorCode::StreamsTopologyFenced.retriable(),
        !ErrorCode::ShareSessionLimitReached.retriable(),
        forall|c: i16| !#[trigger] ErrorCode::Unknown(c).retriable(),
{
}

/// A retriable error code is an error.
pub proof fn lemma_retriable_is_error(e: ErrorCode)
    requires
        e.retriable(),
    ensures
        !(e is NoError),
{
}

} // verus!
