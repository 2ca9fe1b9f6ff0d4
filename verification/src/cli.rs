//! The commands of the command line, as plain values, and the operation that
//! each of them asks for.

use vstd::prelude::*;

verus! {

/// What the command line holds.
#[derive(Debug)]
pub struct CliArgs {
    pub command: Commands,
    /// Region of the service, by its project name or by the name of its city.
    pub region: Option<String>,
    /// Access key, where it is given on the command line.
    pub ak: Option<String>,
    /// Secret key, where it is given on the command line.
    pub sk: Option<String>,
}

/// The commands.
#[derive(Debug)]
pub enum Commands {
    /// Create a bucket.
    Create(CreateArgs),
    /// List the buckets of the region.
    ListBuckets,
    /// Delete one or more buckets.
    DeleteBucket(DeleteBucketArgs),
    /// List the objects of a bucket.
    ListObjects(ListObjectsArgs),
    /// Upload one or more objects to a bucket.
    UploadObject(UploadObjectArgs),
    /// Download an object to disk.
    DownloadObject(DownloadObjectArgs),
    /// Delete an object from a bucket.
    DeleteObject(DeleteObjectArgs),
    /// List the known regions.
    ListRegions,
    /// Set up credentials and a default region.
    Setup,
}

/// What `create` takes.
#[derive(Debug)]
pub struct CreateArgs {
    /// The bucket to create.
    pub bucket: String,
}

/// What `list-objects` takes.
#[derive(Debug)]
pub struct ListObjectsArgs {
    /// The bucket to list objects from.
    pub bucket: String,
    /// Only objects whose key starts with this.
    pub prefix: Option<String>,
    /// Only objects after the one with this key.
    pub marker: Option<String>,
}

/// What `delete-bucket` takes.
#[derive(Debug)]
pub struct DeleteBucketArgs {
    /// The buckets to delete.
    pub buckets: Vec<String>,
}

/// What `upload-object` takes.
#[derive(Debug)]
pub struct UploadObjectArgs {
    /// The bucket to upload to.
    pub bucket: String,
    /// The files to upload.
    pub file_paths: Vec<String>,
    /// The object key, for the upload of a single file.
    pub object_path: Option<String>,
}

/// What `download-object` takes.
#[derive(Debug)]
pub struct DownloadObjectArgs {
    /// The bucket to download from.
    pub bucket: String,
    /// The key of the object.
    pub object_path: String,
    /// The directory to write into, not the file.
    pub output_dir: Option<String>,
}

/// What `delete-object` takes.
#[derive(Debug)]
pub struct DeleteObjectArgs {
    /// The bucket that holds the object.
    pub bucket: String,
    /// The key of the object.
    pub object_path: String,
}

/// What a command asks for, with the arguments that the operation takes.
#[derive(Debug)]
#[allow(inconsistent_fields)]
pub enum Operation {
    Setup,
    ListRegions,
    CreateBucket { bucket: String },
    ListBuckets,
    ListObjects { bucket: String, prefix: Option<String>, marker: Option<String> },
    DeleteBuckets { buckets: Vec<String> },
    /// One file, uploaded under the object key given or under its own name.
    UploadObject { bucket: String, file_path: String, object_path: Option<String> },
    /// Any other number of files, each uploaded under its own name.
    UploadObjects { bucket: String, file_paths: Vec<String> },
    DownloadObject { bucket: String, object_path: String, output_dir: Option<String> },
    DeleteObject { bucket: String, object_path: String },
}

/// Whether `command` needs a region and credentials: every command but the
/// setup does, also the one that only lists the regions.
pub open spec fn needs_session(command: Commands) -> bool {
    !(command is Setup)
}

/// The operation that `command` asks for.
///
/// An upload of exactly one file is a single upload, which may name its object
/// key; an upload of any other number of files is a batch, in which each file
/// keeps its own name and the object key given is not used.
pub open spec fn operation_of(command: Commands) -> Operation {
    match command {
        Commands::Setup => Operation::Setup,
        Commands::ListRegions => Operation::ListRegions,
        Commands::Create(args) => Operation::CreateBucket { bucket: args.bucket },
        Commands::ListBuckets => Operation::ListBuckets,
        Commands::ListObjects(args) => Operation::ListObjects {
            bucket: args.bucket,
            prefix: args.prefix,
            marker: args.marker,
        },
        Commands::DeleteBucket(args) => Operation::DeleteBuckets { buckets: args.buckets },
        Commands::UploadObject(args) => if args.file_paths@.len() == 1 {
            Operation::UploadObject {
                bucket: args.bucket,
                file_path: args.file_paths@[0],
                object_path: args.object_path,
            }
        } else {
            Operation::UploadObjects { bucket: args.bucket, file_paths: args.file_paths }
        },
        Commands::DownloadObject(args) => Operation::DownloadObject {
            bucket: args.bucket,
            object_path: args.object_path,
            output_dir: args.output_dir,
        },
        Commands::DeleteObject(args) => Operation::DeleteObject {
            bucket: args.bucket,
            object_path: args.object_path,
        },
    }
}

/// Tells whether `command` needs a region and credentials.
pub fn command_needs_session(command: &Commands) -> (r: bool)
    ensures
        r == needs_session(*command),
{
    match command {
        Commands::Setup => false,
        _ => true,
    }
}

/// Chooses the operation that `command` asks for.
pub fn select_operation(command: Commands) -> (r: Operation)
    ensures
        r == operation_of(command),
{
    match command {
        Commands::Setup => Operation::Setup,
        Commands::ListRegions => Operation::ListRegions,
        Commands::Create(args) => Operation::CreateBucket { bucket: args.bucket },
        Commands::ListBuckets => Operation::ListBuckets,
        Commands::ListObjects(args) => Operation::ListObjects {
            bucket: args.bucket,
            prefix: args.prefix,
            marker: args.marker,
        },
        Commands::DeleteBucket(args) => Operation::DeleteBuckets { buckets: args.buckets },
        Commands::UploadObject(args) => {
            let mut file_paths = args.file_paths;
            if file_paths.len() == 1 {
                match file_paths.pop() {
                    Some(file_path) => Operation::UploadObject {
                        bucket: args.bucket,
                        file_path,
                        object_path: args.object_path,
                    },
                    None => Operation::UploadObjects { bucket: args.bucket, file_paths },
                }
            } else {
                Operation::UploadObjects { bucket: args.bucket, file_paths }
            }
        },
        Commands::DownloadObject(args) => Operation::DownloadObject {
            bucket: args.bucket,
            object_path: args.object_path,
            output_dir: args.output_dir,
        },
        Commands::DeleteObject(args) => Operation::DeleteObject {
            bucket: args.bucket,
            object_path: args.object_path,
        },
    }
}

} // verus!
