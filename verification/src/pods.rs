//! Finding the Pod of a Job and what to ask Kubernetes for.

use vstd::prelude::*;
use vstd::string::*;
use crate::error::Error;
use crate::snapshot::{JobSnapshot, PodSnapshot};
use crate::text::owned;

verus! {

/// The name of a Job, or the error for a Job without one.
pub fn job_name_of(job: &JobSnapshot) -> (name: Result<String, Error>)
    ensures
        match job.name {
            Some(n) => name matches Ok(m) && m@ == n@,
            None => name matches Err(Error::Internal(m)) && m@ == "Job has no name"@,
        },
{
    match &job.name {
        Some(n) => Ok(n.clone()),
        None => Err(Error::Internal(owned("Job has no name"))),
    }
}

/// The label selector of the Pods of a Job.
pub fn pod_selector(job_name: &str) -> (selector: String)
    ensures
        selector@ == "job-name="@ + job_name@,
{
    let mut s = owned("job-name=");
    s.append(job_name);
    s
}

/// The label selector of the Jobs the shim manages.
pub fn managed_jobs_selector() -> (selector: String)
    ensures
        selector@ == "socket-shim=true"@,
{
    owned("socket-shim=true")
}

/// The first of the Pods listed for a Job, or the error that there is none.
pub fn select_pod(job_name: &str, pods: Vec<PodSnapshot>) -> (pod: Result<PodSnapshot, Error>)
    ensures
        pods@.len() > 0 ==> pod == Ok::<PodSnapshot, Error>(pods@[0]),
        pods@.len() == 0 ==> (pod matches Err(Error::NotFound(m)) && m@ == "No pod found for job "@
            + job_name@),
{
    if pods.len() > 0 {
        let mut pods = pods;
        Ok(pods.remove(0))
    } else {
        let mut m = owned("No pod found for job ");
        m.append(job_name);
        Err(Error::NotFound(m))
    }
}

/// The name of a Pod, or the error for a Pod without one.
pub fn pod_name_of(pod: &PodSnapshot) -> (name: Result<String, Error>)
    ensures
        match pod.name {
            Some(n) => name matches Ok(m) && m@ == n@,
            None => name matches Err(Error::Internal(m)) && m@ == "Pod has no name"@,
        },
{
    match &pod.name {
        Some(n) => Ok(n.clone()),
        None => Err(Error::Internal(owned("Pod has no name"))),
    }
}

/// The chunk that a followed log line is streamed as: the line and a newline.
pub fn stream_line_chunk(line: &str) -> (chunk: Vec<u8>)
    ensures
        chunk@ == line.spec_bytes().push(10u8),
{
    let mut chunk: Vec<u8> = Vec::new();
    crate::text::push_all(&mut chunk, line.as_bytes());
    chunk.push(10u8);
    chunk
}

} // verus!
